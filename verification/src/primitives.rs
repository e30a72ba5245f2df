pub mod aabb;
pub mod dimension;
pub mod geometry;
pub mod interpolate;
pub mod plottable;
pub mod point;
pub mod size;
pub mod unit_point;

pub use dimension::{Dimension, Dimensions, ProposedDimension, ProposedDimensions};
pub use interpolate::Interpolate;
pub use plottable::Plottable;
pub use point::Point;
pub use size::Size;
pub use unit_point::UnitPoint;

use vstd::prelude::*;

verus! {

/// A colored point, the unit that surfaces draw.
#[derive(Debug, Clone)]
pub struct Pixel<C> {
    pub color: C,
    pub point: Point,
}

} // verus!
