use vstd::prelude::*;

use crate::primitives::geometry::rectangle::abs_diff_i32;
use crate::primitives::geometry::RoundedRectangle;
use crate::primitives::interpolate::Interpolate;
use crate::primitives::point::Point;
use crate::primitives::size::Size;
use crate::render::shape::{
    add_signed_saturating, frame_join_ok, frame_join_origin, frame_join_size, inset_fits,
    inset_origin, inset_size, AsShapePrimitive, Inset,
};
use crate::render::{AnimatedJoin, AnimationDomain, ContentShape, IntrinsicShape};

verus! {

/// A rectangle whose shorter sides are fully rounded.
#[derive(Debug, Clone, Copy, PartialEq, Eq, Structural)]
pub struct Capsule {
    pub origin: Point,
    pub size: Size,
}

/// Half of the shorter side, as a corner radius.
pub open spec fn capsule_radius(size: Size) -> u16 {
    ((if size.height <= size.width { size.height } else { size.width }) / 2) as u16
}

impl Capsule {
    pub fn new(origin: Point, size: Size) -> (r: Self)
        ensures
            r.origin == origin,
            r.size == size,
    {
        Self { origin, size }
    }
}

impl Inset for Capsule {
    open spec fn inset_ok(self, amount: i32) -> bool {
        inset_fits(self.origin, amount)
    }

    open spec fn inset_spec(self, amount: i32) -> Self {
        Capsule { origin: inset_origin(self.origin, amount), size: inset_size(self.size, amount) }
    }

    fn inset(self, amount: i32) -> (r: Self) {
        let mut s = self;
        s.size.width = add_signed_saturating(s.size.width, -2 * amount);
        s.size.height = add_signed_saturating(s.size.height, -2 * amount);
        s.origin.x = s.origin.x + amount;
        s.origin.y = s.origin.y + amount;
        s
    }
}

impl AsShapePrimitive for Capsule {
    type Primitive = RoundedRectangle;

    open spec fn primitive(&self) -> RoundedRectangle {
        RoundedRectangle { origin: self.origin, size: self.size, radius: capsule_radius(self.size) }
    }

    fn as_shape(&self) -> (r: RoundedRectangle) {
        let shorter = if self.size.height <= self.size.width {
            self.size.height
        } else {
            self.size.width
        };
        let radius = (shorter / 2) as u16;
        RoundedRectangle::new(self.origin, Size::new(self.size.width, self.size.height), radius)
    }
}

impl IntrinsicShape for Capsule {
    open spec fn shape_ok(&self) -> bool {
        true
    }

    open spec fn shape(&self) -> ContentShape {
        ContentShape::RoundedRectangle(self.primitive())
    }

    fn content_shape(&self) -> (r: ContentShape) {
        ContentShape::RoundedRectangle(self.as_shape())
    }
}

impl AnimatedJoin for Capsule {
    open spec fn join_ok(self, source: Self, domain: AnimationDomain) -> bool {
        frame_join_ok(source.origin, source.size, self.origin, self.size, domain.factor)
    }

    open spec fn joined(self, source: Self, domain: AnimationDomain) -> Self {
        Capsule {
            origin: frame_join_origin(source.origin, self.origin, domain.factor),
            size: frame_join_size(source.origin, source.size, self.origin, self.size, domain.factor),
        }
    }

    fn join_from(&mut self, source: &Self, domain: &AnimationDomain) {
        // Avoid directly interpolating the size as it can lead to jitter from lack of precision
        let bottom_right = Point::interpolate(
            source.origin + source.size,
            self.origin + self.size,
            domain.factor,
        );
        self.origin = Point::interpolate(source.origin, self.origin, domain.factor);
        self.size = Size::new(
            abs_diff_i32(bottom_right.x, self.origin.x),
            abs_diff_i32(bottom_right.y, self.origin.y),
        );
    }
}

/// A capsule is drawn as a rounded rectangle of its own frame whose corner
/// radius is half its shorter side: two radii never exceed its width or its
/// height, and the radius is exactly half the shorter side whenever that
/// fits a radius.
pub proof fn lemma_capsule_radius_is_half_the_shorter_side(capsule: Capsule)
    ensures
        ({
            let r = capsule.primitive();
            let shorter = if capsule.size.width <= capsule.size.height {
                capsule.size.width as int
            } else {
                capsule.size.height as int
            };
            &&& r.origin == capsule.origin
            &&& r.size == capsule.size
            &&& 2 * (r.radius as int) <= capsule.size.width
            &&& 2 * (r.radius as int) <= capsule.size.height
            &&& shorter / 2 <= u16::MAX ==> r.radius as int == shorter / 2
        }),
{
    let w = capsule.size.width as int;
    let h = capsule.size.height as int;
    let shorter = if h <= w { h } else { w };
    let half = shorter / 2;
    assert(capsule.primitive().radius <= u16::MAX);
}

} // verus!
