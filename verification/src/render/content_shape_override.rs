use vstd::prelude::*;

use crate::render::{AnimatedJoin, AnimationDomain, ContentShape, IntrinsicShape};

verus! {

/// A render tree node that overrides the content shape of its subtree.
#[derive(Debug, Clone, Copy, PartialEq, Eq, Structural)]
pub struct ContentShapeOverride<T> {
    pub subtree: T,
    pub shape: ContentShape,
}

impl<T> ContentShapeOverride<T> {
    pub fn new(subtree: T, shape: ContentShape) -> (r: Self)
        ensures
            r.subtree == subtree,
            r.shape == shape,
    {
        Self { subtree, shape }
    }
}

impl<T: AnimatedJoin> AnimatedJoin for ContentShapeOverride<T> {
    open spec fn join_ok(self, source: Self, domain: AnimationDomain) -> bool {
        self.subtree.join_ok(source.subtree, domain)
    }

    /// The shape jumps to the target; only the subtree is joined.
    open spec fn joined(self, source: Self, domain: AnimationDomain) -> Self {
        ContentShapeOverride { subtree: self.subtree.joined(source.subtree, domain), shape: self.shape }
    }

    fn join_from(&mut self, source: &Self, domain: &AnimationDomain) {
        self.subtree.join_from(&source.subtree, domain);
    }
}

impl<T> IntrinsicShape for ContentShapeOverride<T> {
    open spec fn shape_ok(&self) -> bool {
        true
    }

    open spec fn shape(&self) -> ContentShape {
        self.shape
    }

    fn content_shape(&self) -> (r: ContentShape) {
        self.shape
    }
}

} // verus!
