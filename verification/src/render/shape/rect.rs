use vstd::prelude::*;

use crate::primitives::geometry::rectangle::{abs_diff_i32, Rectangle};
use crate::primitives::interpolate::Interpolate;
use crate::primitives::point::Point;
use crate::primitives::size::Size;
use crate::render::shape::{
    add_signed_saturating, frame_join_ok, frame_join_origin, frame_join_size, inset_fits,
    inset_origin, inset_size, AsShapePrimitive, Inset,
};
use crate::render::{AnimatedJoin, AnimationDomain, ContentShape, IntrinsicShape};

verus! {

/// A filled rectangle in the render tree.
#[derive(Debug, Clone, Copy, PartialEq, Eq, Structural)]
pub struct Rect {
    pub origin: Point,
    pub size: Size,
}

impl Rect {
    pub fn new(origin: Point, size: Size) -> (r: Self)
        ensures
            r.origin == origin,
            r.size == size,
    {
        Self { origin, size }
    }
}

impl From<Rectangle> for Rect {
    fn from(value: Rectangle) -> (r: Self) {
        Self { origin: value.origin, size: value.size }
    }
}

impl vstd::std_specs::convert::FromSpecImpl<Rectangle> for Rect {
    open spec fn obeys_from_spec() -> bool {
        true
    }

    /// The filled rectangle covering the same area.
    open spec fn from_spec(value: Rectangle) -> Self {
        Rect { origin: value.origin, size: value.size }
    }
}

impl Inset for Rect {
    open spec fn inset_ok(self, amount: i32) -> bool {
        inset_fits(self.origin, amount)
    }

    open spec fn inset_spec(self, amount: i32) -> Self {
        Rect { origin: inset_origin(self.origin, amount), size: inset_size(self.size, amount) }
    }

    fn inset(self, amount: i32) -> (r: Self) {
        let mut s = self;
        s.size.width = add_signed_saturating(s.size.width, -2 * amount);
        s.size.height = add_signed_saturating(s.size.height, -2 * amount);
        s.origin.x = s.origin.x + amount;
        s.origin.y = s.origin.y + amount;
        s
    }
}

impl AsShapePrimitive for Rect {
    type Primitive = Rectangle;

    open spec fn primitive(&self) -> Rectangle {
        Rectangle { origin: self.origin, size: self.size }
    }

    fn as_shape(&self) -> (r: Rectangle) {
        Rectangle::new(self.origin, Size::new(self.size.width, self.size.height))
    }
}

impl IntrinsicShape for Rect {
    open spec fn shape_ok(&self) -> bool {
        true
    }

    open spec fn shape(&self) -> ContentShape {
        ContentShape::Rectangle(self.primitive())
    }

    fn content_shape(&self) -> (r: ContentShape) {
        ContentShape::Rectangle(self.as_shape())
    }
}

impl AnimatedJoin for Rect {
    open spec fn join_ok(self, source: Self, domain: AnimationDomain) -> bool {
        frame_join_ok(source.origin, source.size, self.origin, self.size, domain.factor)
    }

    open spec fn joined(self, source: Self, domain: AnimationDomain) -> Self {
        Rect {
            origin: frame_join_origin(source.origin, self.origin, domain.factor),
            size: frame_join_size(source.origin, source.size, self.origin, self.size, domain.factor),
        }
    }

    fn join_from(&mut self, source: &Self, domain: &AnimationDomain) {
        // Avoid directly interpolating the size as it can lead to jitter from lack of precision
        let bottom_right = Point::interpolate(
            source.origin + source.size,
            self.origin + self.size,
            domain.factor,
        );
        self.origin = Point::interpolate(source.origin, self.origin, domain.factor);
        self.size = Size::new(
            abs_diff_i32(bottom_right.x, self.origin.x),
            abs_diff_i32(bottom_right.y, self.origin.y),
        );
    }
}

} // verus!
