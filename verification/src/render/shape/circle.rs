use vstd::prelude::*;

use crate::primitives::geometry::Circle as CirclePrimitive;
use crate::primitives::interpolate::Interpolate;
use crate::primitives::point::Point;
use crate::render::shape::AsShapePrimitive;
use crate::render::{AnimatedJoin, AnimationDomain, ContentShape, IntrinsicShape};

verus! {

/// A filled circle in the render tree, given by the top left corner of its
/// bounding box and its diameter.
#[derive(Debug, Clone, Copy, PartialEq, Eq, Structural)]
pub struct Circle {
    pub origin: Point,
    pub diameter: u16,
}

impl Circle {
    pub fn new(origin: Point, diameter: u16) -> (r: Self)
        ensures
            r == (Circle { origin, diameter }),
    {
        Self { origin, diameter }
    }
}

impl AsShapePrimitive for Circle {
    type Primitive = CirclePrimitive;

    open spec fn primitive(&self) -> CirclePrimitive {
        CirclePrimitive { origin: self.origin, diameter: self.diameter }
    }

    fn as_shape(&self) -> (r: CirclePrimitive) {
        CirclePrimitive { origin: self.origin, diameter: self.diameter }
    }
}

impl IntrinsicShape for Circle {
    open spec fn shape_ok(&self) -> bool {
        true
    }

    open spec fn shape(&self) -> ContentShape {
        ContentShape::Circle(self.primitive())
    }

    fn content_shape(&self) -> (r: ContentShape) {
        ContentShape::Circle(self.as_shape())
    }
}

impl AnimatedJoin for Circle {
    open spec fn join_ok(self, source: Self, domain: AnimationDomain) -> bool {
        Point::interpolate_ok(source.origin, self.origin, domain.factor)
    }

    /// The corner and the diameter are each blended.
    open spec fn joined(self, source: Self, domain: AnimationDomain) -> Self {
        Circle {
            origin: Point::interpolation(source.origin, self.origin, domain.factor),
            diameter: u16::interpolation(source.diameter, self.diameter, domain.factor),
        }
    }

    fn join_from(&mut self, source: &Self, domain: &AnimationDomain) {
        self.origin = Point::interpolate(source.origin, self.origin, domain.factor);
        self.diameter = u16::interpolate(source.diameter, self.diameter, domain.factor);
    }
}

} // verus!
