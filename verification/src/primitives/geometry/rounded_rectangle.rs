use vstd::prelude::*;

use crate::primitives::geometry::rectangle::Rectangle;
use crate::primitives::point::Point;
use crate::primitives::size::Size;

verus! {

/// A rectangle with rounded corners of the given radius.
#[derive(Debug, Clone, Copy, PartialEq, Eq, Structural)]
pub struct RoundedRectangle {
    pub origin: Point,
    pub size: Size,
    pub radius: u16,
}

impl RoundedRectangle {
    pub open spec fn spec_bounding_box(self) -> Rectangle {
        Rectangle { origin: self.origin, size: self.size }
    }

    pub fn new(origin: Point, size: Size, radius: u16) -> (r: Self)
        ensures
            r.origin == origin,
            r.size == size,
            r.radius == radius,
    {
        Self { origin, size, radius }
    }

    /// Returns a new shape offset by the given point
    pub fn with_offset(self, offset: Point) -> (r: Self)
        requires
            self.origin.can_add(offset),
        ensures
            r.origin == self.origin.plus(offset),
            r.size == self.size,
            r.radius == self.radius,
    {
        let mut s = self;
        s.origin = s.origin + offset;
        s
    }

    /// Offsets the shape by the given point
    pub fn offset(&mut self, offset: Point)
        requires
            old(self).origin.can_add(offset),
        ensures
            final(self).origin == old(self).origin.plus(offset),
            final(self).size == old(self).size,
            final(self).radius == old(self).radius,
    {
        self.origin = self.origin + offset;
    }

    /// The rectangle without its rounded corners.
    pub fn bounding_box(&self) -> (r: Rectangle)
        ensures
            r == self.spec_bounding_box(),
    {
        Rectangle::new(self.origin, self.size)
    }

    pub fn as_rounded_rect(&self) -> (r: Option<RoundedRectangle>)
        ensures
            r == Some(*self),
    {
        Some(*self)
    }
}

} // verus!
