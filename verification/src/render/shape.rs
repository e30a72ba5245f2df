pub mod capsule;
pub mod circle;
pub mod frames;
pub mod rect;

pub use capsule::Capsule;
pub use circle::Circle;
pub use rect::Rect;

use vstd::prelude::*;

use crate::primitives::interpolate::{blend, Interpolate};
use crate::primitives::point::{fits_i32, Point};
use crate::primitives::size::Size;
use crate::primitives::geometry::rectangle::abs_diff;
use crate::render::{AnimatedJoin, AnimationDomain, ContentShape, IntrinsicShape};

verus! {

/// `value + delta` clamped to the `u32` range.
pub open spec fn saturating_add_signed_u32(value: int, delta: int) -> int {
    if value + delta < 0 {
        0
    } else if value + delta > u32::MAX {
        u32::MAX as int
    } else {
        value + delta
    }
}

pub(crate) fn add_signed_saturating(value: u32, delta: i32) -> (r: u32)
    ensures
        r == saturating_add_signed_u32(value as int, delta as int),
{
    let sum = value as i64 + delta as i64;
    if sum < 0 {
        0
    } else if sum > u32::MAX as i64 {
        u32::MAX
    } else {
        sum as u32
    }
}

/// Whether insetting a shape at `origin` by `amount` stays in range.
pub open spec fn inset_fits(origin: Point, amount: i32) -> bool {
    &&& fits_i32(-2 * amount)
    &&& fits_i32(origin.x + amount)
    &&& fits_i32(origin.y + amount)
}

/// Origin and size after shrinking by `amount` on every side; the size
/// saturates at zero rather than going negative.
pub open spec fn inset_origin(origin: Point, amount: i32) -> Point {
    Point { x: (origin.x + amount) as i32, y: (origin.y + amount) as i32 }
}

pub open spec fn inset_size(size: Size, amount: i32) -> Size {
    Size {
        width: saturating_add_signed_u32(size.width as int, -2 * amount) as u32,
        height: saturating_add_signed_u32(size.height as int, -2 * amount) as u32,
    }
}

/// Whether the frame join of two origin/size pairs can be computed.
pub open spec fn frame_join_ok(
    source_origin: Point,
    source_size: Size,
    origin: Point,
    size: Size,
    factor: u8,
) -> bool {
    &&& source_origin.can_add_size(source_size)
    &&& origin.can_add_size(size)
    &&& Point::interpolate_ok(source_origin.plus_size(source_size), origin.plus_size(size), factor)
    &&& Point::interpolate_ok(source_origin, origin, factor)
}

/// The joined origin: the blend of the two origins.
pub open spec fn frame_join_origin(source_origin: Point, origin: Point, factor: u8) -> Point {
    Point::interpolation(source_origin, origin, factor)
}

/// The joined size: the distance from the joined origin to the blend of the
/// two bottom-right corners, so that the corner does not jitter.
pub open spec fn frame_join_size(
    source_origin: Point,
    source_size: Size,
    origin: Point,
    size: Size,
    factor: u8,
) -> Size {
    let br = Point::interpolation(source_origin.plus_size(source_size), origin.plus_size(size), factor);
    let o = Point::interpolation(source_origin, origin, factor);
    Size {
        width: abs_diff(br.x as int, o.x as int) as u32,
        height: abs_diff(br.y as int, o.y as int) as u32,
    }
}

/// Shapes that can be inset (or, with a negative amount, outset).
pub trait Inset: Sized {
    spec fn inset_ok(self, amount: i32) -> bool;

    spec fn inset_spec(self, amount: i32) -> Self;

    /// Returns the inset version of the shape.
    fn inset(self, amount: i32) -> (r: Self)
        requires
            self.inset_ok(amount),
        ensures
            r == self.inset_spec(amount),
    ;
}

/// Render shapes that stand for a geometric primitive.
pub trait AsShapePrimitive {
    type Primitive;

    spec fn primitive(&self) -> Self::Primitive;

    fn as_shape(&self) -> (r: Self::Primitive)
        ensures
            r == self.primitive(),
    ;
}

/// A shape that is stroked with a specified line width.
#[non_exhaustive]
#[derive(Debug, Clone, Copy, PartialEq, Eq, Structural)]
pub struct StrokedShape<T> {
    pub shape: T,
    pub line_width: u32,
}

impl<T> StrokedShape<T> {
    pub fn new(shape: T, line_width: u32) -> (r: Self)
        ensures
            r.shape == shape,
            r.line_width == line_width,
    {
        Self { shape, line_width }
    }
}

impl<T: AnimatedJoin> AnimatedJoin for StrokedShape<T> {
    open spec fn join_ok(self, source: Self, domain: AnimationDomain) -> bool {
        &&& self.shape.join_ok(source.shape, domain)
        &&& u32::interpolate_ok(source.line_width, self.line_width, domain.factor)
    }

    open spec fn joined(self, source: Self, domain: AnimationDomain) -> Self {
        StrokedShape {
            shape: self.shape.joined(source.shape, domain),
            line_width: blend(source.line_width as int, self.line_width as int, domain.factor as int) as u32,
        }
    }

    fn join_from(&mut self, source: &Self, domain: &AnimationDomain) {
        self.shape.join_from(&source.shape, domain);
        self.line_width = u32::interpolate(source.line_width, self.line_width, domain.factor);
    }
}

impl<T: IntrinsicShape> IntrinsicShape for StrokedShape<T> {
    open spec fn shape_ok(&self) -> bool {
        self.shape.shape_ok()
    }

    open spec fn shape(&self) -> ContentShape {
        self.shape.shape()
    }

    fn content_shape(&self) -> (r: ContentShape) {
        self.shape.content_shape()
    }
}

/// The frame join keeps the bottom-right corner on the blend of the two
/// corners: for regular frames, the joined origin plus the joined size is
/// exactly the blended corner, whatever the factor.
pub proof fn lemma_frame_join_corner_does_not_jitter(
    source_origin: Point,
    source_size: Size,
    origin: Point,
    size: Size,
    factor: u8,
)
    requires
        frame_join_ok(source_origin, source_size, origin, size, factor),
        source_size.width <= i32::MAX,
        source_size.height <= i32::MAX,
        size.width <= i32::MAX,
        size.height <= i32::MAX,
    ensures
        ({
            let o = frame_join_origin(source_origin, origin, factor);
            let s = frame_join_size(source_origin, source_size, origin, size, factor);
            let br = Point::interpolation(
                source_origin.plus_size(source_size),
                origin.plus_size(size),
                factor,
            );
            o.x + s.width == br.x && o.y + s.height == br.y
        }),
{
    let a = factor as int;
    crate::primitives::interpolate::lemma_blend_monotone(
        source_origin.x as int,
        origin.x as int,
        source_origin.x + source_size.width,
        origin.x + size.width,
        a,
    );
    crate::primitives::interpolate::lemma_blend_monotone(
        source_origin.y as int,
        origin.y as int,
        source_origin.y + source_size.height,
        origin.y + size.height,
        a,
    );
}

/// Joining at factor 0 yields the source frame and at factor 255 the target
/// frame, for regular frames.
pub proof fn lemma_frame_join_ends(
    source_origin: Point,
    source_size: Size,
    origin: Point,
    size: Size,
)
    requires
        source_origin.can_add_size(source_size),
        origin.can_add_size(size),
        source_size.width <= i32::MAX,
        source_size.height <= i32::MAX,
        size.width <= i32::MAX,
        size.height <= i32::MAX,
    ensures
        frame_join_origin(source_origin, origin, 0) == source_origin,
        frame_join_size(source_origin, source_size, origin, size, 0) == source_size,
        frame_join_origin(source_origin, origin, 255) == origin,
        frame_join_size(source_origin, source_size, origin, size, 255) == size,
{
    crate::primitives::interpolate::lemma_blend_ends(source_origin.x as int, origin.x as int, 0);
    crate::primitives::interpolate::lemma_blend_ends(source_origin.y as int, origin.y as int, 0);
    crate::primitives::interpolate::lemma_blend_ends(
        source_origin.x + source_size.width,
        origin.x + size.width,
        0,
    );
    crate::primitives::interpolate::lemma_blend_ends(
        source_origin.y + source_size.height,
        origin.y + size.height,
        0,
    );
}

} // verus!
