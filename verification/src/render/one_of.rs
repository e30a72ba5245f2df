//! Render nodes that hold one of several subtree types, chosen at run time.
use vstd::prelude::*;

use crate::render::{AnimatedJoin, AnimationDomain, ContentShape, IntrinsicShape};

verus! {

/// One of two render subtrees.
#[derive(Debug, Clone, PartialEq, Eq)]
pub enum OneOf2<V0, V1> {
    V0(V0),
    V1(V1),
}

/// One of three render subtrees.
#[derive(Debug, Clone, PartialEq, Eq)]
pub enum OneOf3<V0, V1, V2> {
    V0(V0),
    V1(V1),
    V2(V2),
}

impl<V0: AnimatedJoin, V1: AnimatedJoin> AnimatedJoin for OneOf2<V0, V1> {
    /// Subtrees of the same branch are joined; across branches the target
    /// jumps.
    open spec fn join_ok(self, source: Self, domain: AnimationDomain) -> bool {
        match (source, self) {
            (OneOf2::V0(s), OneOf2::V0(t)) => t.join_ok(s, domain),
            (OneOf2::V1(s), OneOf2::V1(t)) => t.join_ok(s, domain),
            _ => true,
        }
    }

    open spec fn joined(self, source: Self, domain: AnimationDomain) -> Self {
        match (source, self) {
            (OneOf2::V0(s), OneOf2::V0(t)) => OneOf2::V0(t.joined(s, domain)),
            (OneOf2::V1(s), OneOf2::V1(t)) => OneOf2::V1(t.joined(s, domain)),
            _ => self,
        }
    }

    fn join_from(&mut self, source: &Self, domain: &AnimationDomain) {
        match (source, self) {
            (OneOf2::V0(source), OneOf2::V0(target)) => target.join_from(source, domain),
            (OneOf2::V1(source), OneOf2::V1(target)) => target.join_from(source, domain),
            (_, _) => {},
        }
    }
}

impl<V0: IntrinsicShape, V1: IntrinsicShape> IntrinsicShape for OneOf2<V0, V1> {
    open spec fn shape_ok(&self) -> bool {
        match self {
            OneOf2::V0(v) => v.shape_ok(),
            OneOf2::V1(v) => v.shape_ok(),
        }
    }

    /// The shape of the branch that is present.
    open spec fn shape(&self) -> ContentShape {
        match self {
            OneOf2::V0(v) => v.shape(),
            OneOf2::V1(v) => v.shape(),
        }
    }

    fn content_shape(&self) -> (r: ContentShape) {
        match self {
            OneOf2::V0(v) => v.content_shape(),
            OneOf2::V1(v) => v.content_shape(),
        }
    }
}

impl<V0: AnimatedJoin, V1: AnimatedJoin, V2: AnimatedJoin> AnimatedJoin for OneOf3<V0, V1, V2> {
    /// Subtrees of the same branch are joined; across branches the target
    /// jumps.
    open spec fn join_ok(self, source: Self, domain: AnimationDomain) -> bool {
        match (source, self) {
            (OneOf3::V0(s), OneOf3::V0(t)) => t.join_ok(s, domain),
            (OneOf3::V1(s), OneOf3::V1(t)) => t.join_ok(s, domain),
            (OneOf3::V2(s), OneOf3::V2(t)) => t.join_ok(s, domain),
            _ => true,
        }
    }

    open spec fn joined(self, source: Self, domain: AnimationDomain) -> Self {
        match (source, self) {
            (OneOf3::V0(s), OneOf3::V0(t)) => OneOf3::V0(t.joined(s, domain)),
            (OneOf3::V1(s), OneOf3::V1(t)) => OneOf3::V1(t.joined(s, domain)),
            (OneOf3::V2(s), OneOf3::V2(t)) => OneOf3::V2(t.joined(s, domain)),
            _ => self,
        }
    }

    fn join_from(&mut self, source: &Self, domain: &AnimationDomain) {
        match (source, self) {
            (OneOf3::V0(source), OneOf3::V0(target)) => target.join_from(source, domain),
            (OneOf3::V1(source), OneOf3::V1(target)) => target.join_from(source, domain),
            (OneOf3::V2(source), OneOf3::V2(target)) => target.join_from(source, domain),
            (_, _) => {},
        }
    }
}

impl<V0: IntrinsicShape, V1: IntrinsicShape, V2: IntrinsicShape> IntrinsicShape for OneOf3<
    V0,
    V1,
    V2,
> {
    open spec fn shape_ok(&self) -> bool {
        match self {
            OneOf3::V0(v) => v.shape_ok(),
            OneOf3::V1(v) => v.shape_ok(),
            OneOf3::V2(v) => v.shape_ok(),
        }
    }

    /// The shape of the branch that is present.
    open spec fn shape(&self) -> ContentShape {
        match self {
            OneOf3::V0(v) => v.shape(),
            OneOf3::V1(v) => v.shape(),
            OneOf3::V2(v) => v.shape(),
        }
    }

    fn content_shape(&self) -> (r: ContentShape) {
        match self {
            OneOf3::V0(v) => v.content_shape(),
            OneOf3::V1(v) => v.content_shape(),
            OneOf3::V2(v) => v.content_shape(),
        }
    }
}

} // verus!
