//! What joining a target render tree with a source tree gives: the source
//! at the start of an animation, the target at its end, and each node's
//! children joined with the source's children in the same place.
use vstd::prelude::*;

use crate::primitives::geometry::Rectangle;
use crate::primitives::interpolate::{lemma_blend_ends, Interpolate};
use crate::primitives::point::{lemma_point_interpolation_ends, Point};
use crate::primitives::size::Size;
use crate::render::clipped::Clipped;
use crate::render::container::Container;
use crate::render::content_shape_override::ContentShapeOverride;
use crate::render::hint_background::HintBackground;
use crate::render::one_of::{OneOf2, OneOf3};
use crate::render::opacity::Opacity;
use crate::render::shape::{lemma_frame_join_ends, Capsule, Circle, Rect, StrokedShape};
use crate::render::transition_option::TransitionOption;
use crate::render::{AnimatedJoin, AnimationDomain};

verus! {

/// Blending a plain value gives the source at factor 0 and the target at
/// factor 255.
pub proof fn lemma_interpolation_ends(
    a8: u8,
    b8: u8,
    a16: u16,
    b16: u16,
    ai: i16,
    bi: i16,
    a32: u32,
    b32: u32,
    sa: Size,
    sb: Size,
    ra: Rectangle,
    rb: Rectangle,
)
    ensures
        u8::interpolation(a8, b8, 0) == a8,
        u8::interpolation(a8, b8, 255) == b8,
        u16::interpolation(a16, b16, 0) == a16,
        u16::interpolation(a16, b16, 255) == b16,
        i16::interpolation(ai, bi, 0) == ai,
        i16::interpolation(ai, bi, 255) == bi,
        u32::interpolation(a32, b32, 0) == a32,
        u32::interpolation(a32, b32, 255) == b32,
        Size::interpolation(sa, sb, 0) == sa,
        Size::interpolation(sa, sb, 255) == sb,
        Rectangle::interpolation(ra, rb, 0) == ra,
        Rectangle::interpolation(ra, rb, 255) == rb,
{
    lemma_blend_ends(a8 as int, b8 as int, 0);
    lemma_blend_ends(a16 as int, b16 as int, 0);
    lemma_blend_ends(ai as int, bi as int, 0);
    lemma_blend_ends(a32 as int, b32 as int, 0);
    lemma_blend_ends(sa.width as int, sb.width as int, 0);
    lemma_blend_ends(sa.height as int, sb.height as int, 0);
    lemma_blend_ends(ra.size.width as int, rb.size.width as int, 0);
    lemma_blend_ends(ra.size.height as int, rb.size.height as int, 0);
    lemma_point_interpolation_ends(ra.origin, rb.origin);
}

/// Whether a frame's far corner can be computed and its sides are no longer
/// than `i32::MAX`.
pub open spec fn frame_fits(origin: Point, size: Size) -> bool {
    &&& origin.can_add_size(size)
    &&& size.width <= i32::MAX
    &&& size.height <= i32::MAX
}

/// A rectangle joined from another starts as the source and ends as the
/// target.
pub proof fn lemma_rect_join_ends(target: Rect, source: Rect, domain: AnimationDomain)
    requires
        frame_fits(source.origin, source.size),
        frame_fits(target.origin, target.size),
    ensures
        domain.factor == 0 ==> target.joined(source, domain) == source,
        domain.factor == 255 ==> target.joined(source, domain) == target,
{
    lemma_frame_join_ends(source.origin, source.size, target.origin, target.size);
}

/// A capsule joined from another starts as the source and ends as the
/// target.
pub proof fn lemma_capsule_join_ends(target: Capsule, source: Capsule, domain: AnimationDomain)
    requires
        frame_fits(source.origin, source.size),
        frame_fits(target.origin, target.size),
    ensures
        domain.factor == 0 ==> target.joined(source, domain) == source,
        domain.factor == 255 ==> target.joined(source, domain) == target,
{
    lemma_frame_join_ends(source.origin, source.size, target.origin, target.size);
}

/// A circle joined from another starts as the source and ends as the
/// target, and its diameter stays between the two.
pub proof fn lemma_circle_join_ends(target: Circle, source: Circle, domain: AnimationDomain)
    ensures
        domain.factor == 0 ==> target.joined(source, domain) == source,
        domain.factor == 255 ==> target.joined(source, domain) == target,
        ({
            let d = target.joined(source, domain).diameter;
            &&& source.diameter <= target.diameter ==> source.diameter <= d <= target.diameter
            &&& target.diameter <= source.diameter ==> target.diameter <= d <= source.diameter
        }),
{
    lemma_point_interpolation_ends(source.origin, target.origin);
    lemma_blend_ends(source.diameter as int, target.diameter as int, 0);
    crate::primitives::interpolate::lemma_blend_between(
        source.diameter as int,
        target.diameter as int,
        domain.factor as int,
    );
}

/// A stroked shape joins its shape with the source's shape, and its line
/// width starts at the source's and ends at the target's.
pub proof fn lemma_stroked_join<T: AnimatedJoin>(target: StrokedShape<T>, source: StrokedShape<T>, domain: AnimationDomain)
    ensures
        target.joined(source, domain).shape == target.shape.joined(source.shape, domain),
        domain.factor == 0 ==> target.joined(source, domain).line_width == source.line_width,
        domain.factor == 255 ==> target.joined(source, domain).line_width == target.line_width,
{
    lemma_blend_ends(source.line_width as int, target.line_width as int, 0);
}

/// An opacity node joins its subtree with the source's, and its opacity
/// stays between the source's and the target's.
pub proof fn lemma_opacity_join<T: AnimatedJoin>(target: Opacity<T>, source: Opacity<T>, domain: AnimationDomain)
    ensures
        target.joined(source, domain).subtree == target.subtree.joined(source.subtree, domain),
        ({
            let o = target.joined(source, domain).opacity;
            &&& source.opacity <= target.opacity ==> source.opacity <= o <= target.opacity
            &&& target.opacity <= source.opacity ==> target.opacity <= o <= source.opacity
        }),
{
    crate::primitives::interpolate::lemma_blend_between(
        source.opacity as int,
        target.opacity as int,
        domain.factor as int,
    );
}

/// A container starts in the source's frame and ends in the target's, and
/// joins its child with the source's child.
pub proof fn lemma_container_join<T: AnimatedJoin>(target: Container<T>, source: Container<T>, domain: AnimationDomain)
    ensures
        target.joined(source, domain).child == target.child.joined(source.child, domain),
        domain.factor == 0 ==> target.joined(source, domain).frame == source.frame,
        domain.factor == 255 ==> target.joined(source, domain).frame == target.frame,
{
    lemma_interpolation_ends(0, 0, 0, 0, 0, 0, 0, 0, source.frame.size, target.frame.size, source.frame, target.frame);
}

/// A clipped node starts with the source's clip and ends with the target's,
/// and joins its subtree with the source's subtree.
pub proof fn lemma_clipped_join<T: AnimatedJoin>(target: Clipped<T>, source: Clipped<T>, domain: AnimationDomain)
    ensures
        target.joined(source, domain).subtree == target.subtree.joined(source.subtree, domain),
        domain.factor == 0 ==> target.joined(source, domain).clip_rect == source.clip_rect,
        domain.factor == 255 ==> target.joined(source, domain).clip_rect == target.clip_rect,
{
    lemma_interpolation_ends(
        0,
        0,
        0,
        0,
        0,
        0,
        0,
        0,
        source.clip_rect.size,
        target.clip_rect.size,
        source.clip_rect,
        target.clip_rect,
    );
}

/// An overridden content shape is the target's throughout; the subtree is
/// joined with the source's subtree.
pub proof fn lemma_shape_override_join<T: AnimatedJoin>(
    target: ContentShapeOverride<T>,
    source: ContentShapeOverride<T>,
    domain: AnimationDomain,
)
    ensures
        target.joined(source, domain).subtree == target.subtree.joined(source.subtree, domain),
        target.joined(source, domain).shape == target.shape,
{
}

/// A background hint blends its colour from the source's to the target's
/// and joins its subtree with the source's subtree.
pub proof fn lemma_hint_background_join<T: AnimatedJoin, C: Interpolate + Copy>(
    target: HintBackground<T, C>,
    source: HintBackground<T, C>,
    domain: AnimationDomain,
)
    ensures
        target.joined(source, domain).subtree == target.subtree.joined(source.subtree, domain),
        target.joined(source, domain).color == C::interpolation(source.color, target.color, domain.factor),
{
}

/// Two present subtrees are joined; otherwise the target is kept as it is,
/// so a subtree that appears or disappears jumps.
pub proof fn lemma_option_join<T: AnimatedJoin>(target: Option<T>, source: Option<T>, domain: AnimationDomain)
    ensures
        match (source, target) {
            (Some(s), Some(t)) => target.joined(source, domain) == Some(t.joined(s, domain)),
            _ => target.joined(source, domain) == target,
        },
{
}

/// Subtrees on the same branch are joined; across branches the target is
/// kept as it is.
pub proof fn lemma_one_of_join<V0: AnimatedJoin, V1: AnimatedJoin, V2: AnimatedJoin>(
    target2: OneOf2<V0, V1>,
    source2: OneOf2<V0, V1>,
    target3: OneOf3<V0, V1, V2>,
    source3: OneOf3<V0, V1, V2>,
    domain: AnimationDomain,
)
    ensures
        match (source2, target2) {
            (OneOf2::V0(s), OneOf2::V0(t)) => target2.joined(source2, domain) == OneOf2::<V0, V1>::V0(
                t.joined(s, domain),
            ),
            (OneOf2::V1(s), OneOf2::V1(t)) => target2.joined(source2, domain) == OneOf2::<V0, V1>::V1(
                t.joined(s, domain),
            ),
            _ => target2.joined(source2, domain) == target2,
        },
        match (source3, target3) {
            (OneOf3::V0(s), OneOf3::V0(t)) => target3.joined(source3, domain) == OneOf3::<
                V0,
                V1,
                V2,
            >::V0(t.joined(s, domain)),
            (OneOf3::V1(s), OneOf3::V1(t)) => target3.joined(source3, domain) == OneOf3::<
                V0,
                V1,
                V2,
            >::V1(t.joined(s, domain)),
            (OneOf3::V2(s), OneOf3::V2(t)) => target3.joined(source3, domain) == OneOf3::<
                V0,
                V1,
                V2,
            >::V2(t.joined(s, domain)),
            _ => target3.joined(source3, domain) == target3,
        },
{
}

/// A transitioning subtree present on both sides is joined with the
/// source's and keeps the target's size and transition; otherwise the
/// target is kept as it is.
pub proof fn lemma_transition_option_join<S: AnimatedJoin, T>(
    target: TransitionOption<S, T>,
    source: TransitionOption<S, T>,
    domain: AnimationDomain,
)
    ensures
        match (source, target) {
            (
                TransitionOption::Present { subtree: s, .. },
                TransitionOption::Present { subtree: t, size, transition },
            ) => target.joined(source, domain) == (TransitionOption::Present {
                subtree: t.joined(s, domain),
                size,
                transition,
            }),
            _ => target.joined(source, domain) == target,
        },
{
}

} // verus!
