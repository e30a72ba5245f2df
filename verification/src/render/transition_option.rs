use vstd::prelude::*;

use crate::primitives::point::Point;
use crate::primitives::size::Size;
use crate::render::{AnimatedJoin, AnimationDomain, ContentShape, IntrinsicShape};
use crate::transition::{lemma_transitions_rest, Direction, Edge, Move, Slide, Transition};
use crate::transition::Opacity as Fade;

verus! {

/// An optional subtree that can be rendered with a transition.
#[derive(Debug, Clone, Copy, PartialEq, Eq, Structural)]
pub enum TransitionOption<Subtree, T> {
    Present {
        subtree: Subtree,
        /// Size of the subtree, used for computing offsets
        size: Size,
        /// The transition to apply
        transition: T,
    },
    Absent,
}

impl<Subtree, T> TransitionOption<Subtree, T> {
    /// Constructs a new [`Self::Present`] variant
    pub fn new_some(subtree: Subtree, size: Size, transition: T) -> (r: Self)
        ensures
            r == (TransitionOption::Present { subtree, size, transition }),
    {
        Self::Present { subtree, size, transition }
    }
}

/// What an animated render of a transitioning subtree draws.
#[derive(Debug, Clone, Copy, PartialEq, Eq, Structural)]
pub enum TransitionStep {
    /// Both trees hold the subtree: it is animated from the source's state
    /// to the target's.
    Animate,
    /// Nothing is drawn.
    Skip,
    /// The target's subtree is drawn as it is.
    Target,
    /// A subtree is drawn on a layer moved by `offset` and faded to
    /// `opacity`: the source's subtree when `direction` is `Out`, the
    /// target's when it is `In`.
    Layer { direction: Direction, offset: Point, opacity: u8 },
}

/// The layer of a subtree that is appearing or disappearing.
pub open spec fn transition_layer<T: Transition>(
    transition: T,
    direction: Direction,
    size: Size,
    domain: AnimationDomain,
) -> TransitionStep {
    TransitionStep::Layer {
        direction,
        offset: transition.offset_at(direction, domain.factor, size),
        opacity: transition.opacity_at(direction, domain.factor),
    }
}

/// What is drawn between `source` and `target`: a subtree present on both
/// sides is animated; one that disappears is drawn on a layer going out
/// until the animation completes, then no more; one that appears is drawn
/// on a layer coming in, and as it is once the animation completes.
pub open spec fn transition_step_spec<Subtree, T: Transition>(
    source: TransitionOption<Subtree, T>,
    target: TransitionOption<Subtree, T>,
    domain: AnimationDomain,
) -> TransitionStep {
    match (source, target) {
        (TransitionOption::Present { .. }, TransitionOption::Present { .. }) => TransitionStep::Animate,
        (TransitionOption::Present { size, transition, .. }, TransitionOption::Absent) => {
            if domain.factor == 255 {
                TransitionStep::Skip
            } else {
                transition_layer(transition, Direction::Out, size, domain)
            }
        },
        (TransitionOption::Absent, TransitionOption::Present { size, transition, .. }) => {
            if domain.factor == 255 {
                TransitionStep::Target
            } else {
                transition_layer(transition, Direction::In, size, domain)
            }
        },
        (TransitionOption::Absent, TransitionOption::Absent) => TransitionStep::Skip,
    }
}

impl<Subtree, T: Transition> TransitionOption<Subtree, T> {
    /// Decides what an animated render from `source` to `target` draws at
    /// the point of the animation that `domain` gives.
    pub fn transition_step(source: &Self, target: &Self, domain: &AnimationDomain) -> (r: TransitionStep)
        ensures
            r == transition_step_spec(*source, *target, *domain),
    {
        match source {
            Self::Present { size, transition, .. } => {
                match target {
                    Self::Present { .. } => TransitionStep::Animate,
                    Self::Absent => {
                        if domain.is_complete() {
                            TransitionStep::Skip
                        } else {
                            let opacity = transition.opacity(Direction::Out, domain.factor);
                            let offset = transition.transform(Direction::Out, domain.factor, *size);
                            TransitionStep::Layer { direction: Direction::Out, offset, opacity }
                        }
                    },
                }
            },
            Self::Absent => {
                match target {
                    Self::Present { size, transition, .. } => {
                        if domain.is_complete() {
                            TransitionStep::Target
                        } else {
                            let opacity = transition.opacity(Direction::In, domain.factor);
                            let offset = transition.transform(Direction::In, domain.factor, *size);
                            TransitionStep::Layer { direction: Direction::In, offset, opacity }
                        }
                    },
                    Self::Absent => TransitionStep::Skip,
                }
            },
        }
    }
}

/// What an animated render that follows the differ draws of a
/// transitioning subtree.
#[derive(Debug, Clone, Copy, PartialEq, Eq, Structural)]
pub struct DiffedStep {
    /// What is drawn.
    pub step: TransitionStep,
    /// Whether the differ skips the subtree's own slots, which happens
    /// unless an animated subtree is left to read them itself.
    pub skip_subtree_slots: bool,
}

/// With its slot marked changed, the node is drawn as a plain animated
/// render would draw it and its subtree's slots are skipped. Unchanged, a
/// subtree present on both sides is animated and reads its own slots;
/// otherwise the node is drawn as a plain animated render would and the
/// subtree's slots are skipped.
pub open spec fn diffed_step_spec<Subtree, T: Transition>(
    changed: bool,
    source: TransitionOption<Subtree, T>,
    target: TransitionOption<Subtree, T>,
    domain: AnimationDomain,
) -> DiffedStep {
    let step = transition_step_spec(source, target, domain);
    DiffedStep {
        step,
        skip_subtree_slots: changed || step != TransitionStep::Animate,
    }
}

impl<Subtree, T: Transition> TransitionOption<Subtree, T> {
    /// Decides what an animated render from `source` to `target` draws when
    /// the differ's slot for this node reads `changed`.
    pub fn diffed_step(changed: bool, source: &Self, target: &Self, domain: &AnimationDomain) -> (r: DiffedStep)
        ensures
            r == diffed_step_spec(changed, *source, *target, *domain),
    {
        let step = Self::transition_step(source, target, domain);
        let animated = match step {
            TransitionStep::Animate => true,
            _ => false,
        };
        DiffedStep { step, skip_subtree_slots: changed || !animated }
    }
}

/// Once the animation is complete, the animated render of a transitioning
/// subtree draws what a plain render of the joined tree draws: nothing
/// where the joined tree is absent, the target's subtree as it is where only
/// the target holds one, and the subtree's own animation, which its join
/// matches, where both hold one. No layer is drawn then.
pub proof fn lemma_complete_step_matches_join<Subtree: AnimatedJoin, T: Transition>(
    source: TransitionOption<Subtree, T>,
    target: TransitionOption<Subtree, T>,
    domain: AnimationDomain,
)
    requires
        domain.factor == 255,
    ensures
        !(transition_step_spec(source, target, domain) is Layer),
        (transition_step_spec(source, target, domain) == TransitionStep::Skip) == (target.joined(
            source,
            domain,
        ) is Absent),
        transition_step_spec(source, target, domain) == TransitionStep::Target ==> target.joined(
            source,
            domain,
        ) == target && target is Present,
        transition_step_spec(source, target, domain) == TransitionStep::Animate ==> (match (source, target) {
            (
                TransitionOption::Present { subtree: s, .. },
                TransitionOption::Present { subtree: t, size, transition },
            ) => target.joined(source, domain) == (TransitionOption::Present {
                subtree: t.joined(s, domain),
                size,
                transition,
            }),
            _ => false,
        }),
{
}

impl<Subtree: AnimatedJoin, T> AnimatedJoin for TransitionOption<Subtree, T> {
    open spec fn join_ok(self, source: Self, domain: AnimationDomain) -> bool {
        match (source, self) {
            (
                TransitionOption::Present { subtree: s, .. },
                TransitionOption::Present { subtree: t, .. },
            ) => t.join_ok(s, domain),
            _ => true,
        }
    }

    /// Only two present subtrees are joined; size and transition come from
    /// the target.
    open spec fn joined(self, source: Self, domain: AnimationDomain) -> Self {
        match (source, self) {
            (
                TransitionOption::Present { subtree: s, .. },
                TransitionOption::Present { subtree: t, size, transition },
            ) => TransitionOption::Present { subtree: t.joined(s, domain), size, transition },
            _ => self,
        }
    }

    fn join_from(&mut self, source: &Self, domain: &AnimationDomain) {
        match source {
            Self::Present { subtree: source_subtree, .. } => {
                match self {
                    Self::Present { subtree: target_subtree, .. } => {
                        target_subtree.join_from(source_subtree, domain);
                    },
                    Self::Absent => {},
                }
            },
            Self::Absent => {},
        }
    }
}

impl<Subtree: IntrinsicShape, T> IntrinsicShape for TransitionOption<Subtree, T> {
    open spec fn shape_ok(&self) -> bool {
        match self {
            TransitionOption::Present { subtree, .. } => subtree.shape_ok(),
            TransitionOption::Absent => true,
        }
    }

    open spec fn shape(&self) -> ContentShape {
        match self {
            TransitionOption::Present { subtree, .. } => subtree.shape(),
            TransitionOption::Absent => ContentShape::Empty,
        }
    }

    fn content_shape(&self) -> (r: ContentShape) {
        match self {
            Self::Present { subtree, .. } => subtree.content_shape(),
            Self::Absent => ContentShape::Empty,
        }
    }
}

/// A layer is drawn only for a subtree that appears or disappears, and only
/// before the animation completes; then one always is. The layer moves and
/// fades the subtree as its transition does in the layer's own direction at
/// the animation's factor: out for a subtree that disappears, in for one that
/// appears.
pub proof fn lemma_layer_follows_its_direction<Subtree, T: Transition>(
    source: TransitionOption<Subtree, T>,
    target: TransitionOption<Subtree, T>,
    domain: AnimationDomain,
)
    ensures
        transition_step_spec(source, target, domain) matches TransitionStep::Layer {
            direction,
            offset,
            opacity,
        } ==> {
            &&& domain.factor != 255
            &&& (direction == Direction::Out) == (target is Absent)
            &&& match (source, target) {
                (TransitionOption::Present { size, transition, .. }, TransitionOption::Absent) => {
                    &&& direction == Direction::Out
                    &&& offset == transition.offset_at(Direction::Out, domain.factor, size)
                    &&& opacity == transition.opacity_at(Direction::Out, domain.factor)
                },
                (TransitionOption::Absent, TransitionOption::Present { size, transition, .. }) => {
                    &&& direction == Direction::In
                    &&& offset == transition.offset_at(Direction::In, domain.factor, size)
                    &&& opacity == transition.opacity_at(Direction::In, domain.factor)
                },
                _ => false,
            }
        },
        (source is Present) != (target is Present) && domain.factor != 255 ==> transition_step_spec(
            source,
            target,
            domain,
        ) is Layer,
{
}

/// A subtree that starts to disappear is drawn where it rests, fully opaque,
/// whichever of the library's transitions it uses; one that has finished
/// appearing is drawn as it is.
pub proof fn lemma_transition_starts_and_ends_at_rest<Subtree>(
    subtree: Subtree,
    size: Size,
    edge: Edge,
    domain: AnimationDomain,
)
    ensures
        domain.factor == 0 ==> {
            let rest = TransitionStep::Layer {
                direction: Direction::Out,
                offset: Point { x: 0, y: 0 },
                opacity: 255,
            };
            &&& transition_step_spec(
                TransitionOption::Present { subtree, size, transition: Move { edge } },
                TransitionOption::Absent,
                domain,
            ) == rest
            &&& transition_step_spec(
                TransitionOption::Present { subtree, size, transition: Slide { edge } },
                TransitionOption::Absent,
                domain,
            ) == rest
            &&& transition_step_spec(
                TransitionOption::Present { subtree, size, transition: Fade },
                TransitionOption::Absent,
                domain,
            ) == rest
        },
        domain.factor == 255 ==> transition_step_spec(
            TransitionOption::Absent,
            TransitionOption::Present { subtree, size, transition: Move { edge } },
            domain,
        ) == TransitionStep::Target,
{
    lemma_transitions_rest(edge, size);
}

/// Following the differ changes what is drawn only in leaving an unchanged
/// subtree that is present on both sides to read its own slots; in every
/// other case the subtree's slots are skipped, and what is drawn is what a
/// plain animated render draws.
pub proof fn lemma_diffed_step_reads_slots_only_for_unchanged_animation<Subtree, T: Transition>(
    changed: bool,
    source: TransitionOption<Subtree, T>,
    target: TransitionOption<Subtree, T>,
    domain: AnimationDomain,
)
    ensures
        diffed_step_spec(changed, source, target, domain).step == transition_step_spec(source, target, domain),
        !diffed_step_spec(changed, source, target, domain).skip_subtree_slots == (!changed
            && source is Present && target is Present),
{
}

} // verus!
