//! The content shape that each wrapping node of the render tree reports.
use vstd::prelude::*;

use crate::render::clipped::Clipped;
use crate::render::container::Container;
use crate::render::content_shape_override::ContentShapeOverride;
use crate::render::hint_background::HintBackground;
use crate::render::one_of::{OneOf2, OneOf3};
use crate::render::opacity::Opacity;
use crate::render::shape::StrokedShape;
use crate::render::transition_option::TransitionOption;
use crate::render::{ContentShape, IntrinsicShape};

verus! {

/// A node that only wraps a subtree reports the subtree's shape: a
/// container, a clip (which does not cut the shape), a background hint and
/// a stroke. A visible opacity node does too, and a fully transparent one
/// reports no shape; an override reports the shape it was given.
pub proof fn lemma_wrappers_report_their_subtree<T: IntrinsicShape, C>(
    container: Container<T>,
    clipped: Clipped<T>,
    hint: HintBackground<T, C>,
    stroked: StrokedShape<T>,
    opacity: Opacity<T>,
    overridden: ContentShapeOverride<T>,
)
    ensures
        container.shape() == container.child.shape(),
        clipped.shape() == clipped.subtree.shape(),
        hint.shape() == hint.subtree.shape(),
        stroked.shape() == stroked.shape.shape(),
        opacity.opacity > 0 ==> opacity.shape() == opacity.subtree.shape(),
        opacity.opacity == 0 ==> opacity.shape() == ContentShape::Empty,
        overridden.shape() == overridden.shape,
{
}

/// A node that picks one of several subtrees reports the shape of the one
/// it holds, and an absent subtree reports no shape.
pub proof fn lemma_choices_report_the_chosen_subtree<V0: IntrinsicShape, V1: IntrinsicShape, V2: IntrinsicShape, T>(
    two: OneOf2<V0, V1>,
    three: OneOf3<V0, V1, V2>,
    option: Option<V0>,
    transition: TransitionOption<V0, T>,
)
    ensures
        two matches OneOf2::V0(v) ==> two.shape() == v.shape(),
        two matches OneOf2::V1(v) ==> two.shape() == v.shape(),
        three matches OneOf3::V0(v) ==> three.shape() == v.shape(),
        three matches OneOf3::V1(v) ==> three.shape() == v.shape(),
        three matches OneOf3::V2(v) ==> three.shape() == v.shape(),
        option matches Some(v) ==> option.shape() == v.shape(),
        option is None ==> option.shape() == ContentShape::Empty,
        transition matches TransitionOption::Present { subtree, .. } ==> transition.shape() == subtree.shape(),
        transition is Absent ==> transition.shape() == ContentShape::Empty,
        ().shape() == ContentShape::Empty,
{
}

} // verus!
