//! What the filled shapes of the render tree stand for: the primitive that
//! each draws, the content shape it reports, and how insetting moves its
//! sides.
use vstd::prelude::*;

use crate::primitives::geometry::Rectangle;
use crate::render::shape::{AsShapePrimitive, Capsule, Circle, Inset, Rect};
use crate::render::{ContentShape, IntrinsicShape};

verus! {

/// A rectangle draws and reports its own frame; a capsule draws a rounded
/// rectangle over its own frame and reports that frame as its bounds; a
/// circle draws the circle of its diameter at its corner and reports the
/// square around it.
pub proof fn lemma_shapes_cover_their_frames(rect: Rect, capsule: Capsule, circle: Circle)
    ensures
        rect.primitive() == (Rectangle { origin: rect.origin, size: rect.size }),
        rect.shape().spec_bounding_box() == Some(Rectangle { origin: rect.origin, size: rect.size }),
        rect.shape() is Rectangle,
        capsule.primitive().origin == capsule.origin,
        capsule.primitive().size == capsule.size,
        capsule.shape().spec_bounding_box() == Some(
            Rectangle { origin: capsule.origin, size: capsule.size },
        ),
        capsule.shape() is RoundedRectangle,
        circle.primitive().origin == circle.origin,
        circle.primitive().diameter == circle.diameter,
        circle.shape() is Circle,
        circle.shape().spec_bounding_box() matches Some(b) && b.origin == circle.origin
            && b.size.width == circle.diameter && b.size.height == circle.diameter,
{
}

/// Whether `r` is `value + delta` clamped to the range of a side.
pub open spec fn is_clamped_side(r: int, value: int, delta: int) -> bool {
    &&& 0 <= value + delta <= u32::MAX ==> r == value + delta
    &&& value + delta < 0 ==> r == 0
    &&& value + delta > u32::MAX ==> r == u32::MAX
}

/// Insetting by `amount` moves the corner in by `amount` along both axes
/// and takes `amount` off each of the four sides, so each side shrinks by
/// twice the amount (stopping at zero; a negative amount grows the shape).
/// While the shape is large enough, its far edges move in by `amount` too.
pub proof fn lemma_inset_moves_every_side(rect: Rect, capsule: Capsule, amount: i32)
    ensures
        rect.inset_ok(amount) ==> {
            let r = rect.inset_spec(amount);
            &&& r.origin.x == rect.origin.x + amount
            &&& r.origin.y == rect.origin.y + amount
            &&& is_clamped_side(r.size.width as int, rect.size.width as int, -2 * amount)
            &&& is_clamped_side(r.size.height as int, rect.size.height as int, -2 * amount)
            &&& (amount >= 0 && rect.size.width >= 2 * amount ==> r.origin.x + r.size.width
                == rect.origin.x + rect.size.width - amount)
            &&& (amount >= 0 && rect.size.height >= 2 * amount ==> r.origin.y + r.size.height
                == rect.origin.y + rect.size.height - amount)
        },
        capsule.inset_ok(amount) ==> {
            let r = capsule.inset_spec(amount);
            &&& r.origin.x == capsule.origin.x + amount
            &&& r.origin.y == capsule.origin.y + amount
            &&& is_clamped_side(r.size.width as int, capsule.size.width as int, -2 * amount)
            &&& is_clamped_side(r.size.height as int, capsule.size.height as int, -2 * amount)
        },
{
}

/// A point is inside a content shape exactly when it lies inside its
/// bounding box, counting the near edges and not the far ones; an empty
/// shape holds no point.
pub proof fn lemma_contains_is_inside_the_bounds(shape: ContentShape, x: i32, y: i32)
    ensures
        shape is Empty ==> !shape.spec_contains(crate::primitives::point::Point { x, y }),
        shape.spec_bounding_box() matches Some(b) ==> (shape.spec_contains(
            crate::primitives::point::Point { x, y },
        ) == (b.origin.x <= x && b.origin.y <= y && x < b.right() && y < b.bottom())),
{
}

} // verus!
