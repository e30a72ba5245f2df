use vstd::prelude::*;

use crate::primitives::interpolate::Interpolate;
use crate::render::{AnimatedJoin, AnimationDomain, ContentShape, IntrinsicShape};

verus! {

/// A node that tells the render target which background color lies behind
/// its subtree.
#[derive(Debug, Clone, Copy, PartialEq, Eq, Structural)]
pub struct HintBackground<T, C> {
    pub subtree: T,
    pub color: C,
}

impl<T, C> HintBackground<T, C> {
    pub fn new(subtree: T, color: C) -> (r: Self)
        ensures
            r.subtree == subtree,
            r.color == color,
    {
        Self { subtree, color }
    }
}

impl<T: AnimatedJoin, C: Interpolate + Copy> AnimatedJoin for HintBackground<T, C> {
    open spec fn join_ok(self, source: Self, domain: AnimationDomain) -> bool {
        &&& C::interpolate_ok(source.color, self.color, domain.factor)
        &&& self.subtree.join_ok(source.subtree, domain)
    }

    open spec fn joined(self, source: Self, domain: AnimationDomain) -> Self {
        HintBackground {
            subtree: self.subtree.joined(source.subtree, domain),
            color: C::interpolation(source.color, self.color, domain.factor),
        }
    }

    fn join_from(&mut self, source: &Self, domain: &AnimationDomain) {
        self.color = C::interpolate(source.color, self.color, domain.factor);
        self.subtree.join_from(&source.subtree, domain);
    }
}

impl<T: IntrinsicShape, C> IntrinsicShape for HintBackground<T, C> {
    open spec fn shape_ok(&self) -> bool {
        self.subtree.shape_ok()
    }

    open spec fn shape(&self) -> ContentShape {
        self.subtree.shape()
    }

    fn content_shape(&self) -> (r: ContentShape) {
        self.subtree.content_shape()
    }
}

} // verus!
