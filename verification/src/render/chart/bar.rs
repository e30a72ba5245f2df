use vstd::prelude::*;

use crate::primitives::geometry::Rectangle;
use crate::primitives::point::Point;
use crate::primitives::size::Size;

verus! {

/// A single bar's pixel-space geometry.
#[derive(Debug, Clone, Copy, PartialEq, Eq, Structural)]
pub struct ChartBar {
    pub x: i16,
    pub y: i16,
    pub width: i16,
    pub height: i16,
}

/// A bar extent, with a negative one counted as empty.
pub open spec fn bar_extent(v: i16) -> u32 {
    if v > 0 { v as u32 } else { 0 }
}

impl ChartBar {
    /// The rectangle the bar covers; a negative width or height counts as zero.
    pub fn to_rectangle(self) -> (r: Rectangle)
        ensures
            r.origin == (Point { x: self.x as i32, y: self.y as i32 }),
            r.size == (Size { width: bar_extent(self.width), height: bar_extent(self.height) }),
    {
        let width: u32 = if self.width > 0 { self.width as u32 } else { 0 };
        let height: u32 = if self.height > 0 { self.height as u32 } else { 0 };
        Rectangle::new(
            Point::new(self.x as i32, self.y as i32),
            Size::new(width, height),
        )
    }
}

} // verus!
