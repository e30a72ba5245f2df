use vstd::prelude::*;

use crate::primitives::geometry::rectangle::Rectangle;
use crate::primitives::point::Point;
use crate::primitives::size::Size;

verus! {

/// A circle given by the top-left corner of its bounding box and its diameter.
#[derive(Debug, Clone, Copy, PartialEq, Eq, Structural)]
pub struct Circle {
    /// Top left corner of the bounding box
    pub origin: Point,
    pub diameter: u16,
}

impl Circle {
    pub open spec fn spec_bounding_box(self) -> Rectangle {
        Rectangle {
            origin: self.origin,
            size: Size { width: self.diameter as u32, height: self.diameter as u32 },
        }
    }

    pub fn new(origin: Point, diameter: u16) -> (r: Self)
        ensures
            r.origin == origin,
            r.diameter == diameter,
    {
        Self { origin, diameter }
    }

    /// Returns a circle offset by the given point.
    pub fn with_offset(self, offset: Point) -> (r: Self)
        requires
            self.origin.can_add(offset),
        ensures
            r.origin == self.origin.plus(offset),
            r.diameter == self.diameter,
    {
        let mut s = self;
        s.origin = s.origin + offset;
        s
    }

    /// Offsets the circle by the given point
    pub fn offset(&mut self, offset: Point)
        requires
            old(self).origin.can_add(offset),
        ensures
            final(self).origin == old(self).origin.plus(offset),
            final(self).diameter == old(self).diameter,
    {
        self.origin = self.origin + offset;
    }

    /// The square that encloses the circle.
    pub fn bounding_box(&self) -> (r: Rectangle)
        ensures
            r == self.spec_bounding_box(),
    {
        Rectangle::new(self.origin, Size::new(self.diameter as u32, self.diameter as u32))
    }

    pub fn as_circle(&self) -> (r: Option<Circle>)
        ensures
            r == Some(*self),
    {
        Some(*self)
    }
}

} // verus!
