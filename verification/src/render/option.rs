//! A non-transitioning `Option<T>` in the render tree.
//! For a transition-capable version, use [`crate::render::TransitionOption`].
use vstd::prelude::*;

use crate::render::{AnimatedJoin, AnimationDomain, ContentShape, IntrinsicShape};

verus! {

impl<T: AnimatedJoin> AnimatedJoin for Option<T> {
    /// Only two present subtrees are joined.
    open spec fn join_ok(self, source: Self, domain: AnimationDomain) -> bool {
        match (source, self) {
            (Some(s), Some(t)) => t.join_ok(s, domain),
            _ => true,
        }
    }

    open spec fn joined(self, source: Self, domain: AnimationDomain) -> Self {
        match (source, self) {
            (Some(s), Some(t)) => Some(t.joined(s, domain)),
            _ => self,
        }
    }

    fn join_from(&mut self, source: &Self, domain: &AnimationDomain) {
        match source {
            Some(source) => {
                match self {
                    Some(target) => {
                        target.join_from(source, domain);
                    },
                    None => {},
                }
            },
            None => {},
        }
    }
}

impl<T: IntrinsicShape> IntrinsicShape for Option<T> {
    open spec fn shape_ok(&self) -> bool {
        match self {
            Some(view) => view.shape_ok(),
            None => true,
        }
    }

    open spec fn shape(&self) -> ContentShape {
        match self {
            Some(view) => view.shape(),
            None => ContentShape::Empty,
        }
    }

    fn content_shape(&self) -> (r: ContentShape) {
        match self {
            Some(view) => view.content_shape(),
            None => ContentShape::Empty,
        }
    }
}

} // verus!
