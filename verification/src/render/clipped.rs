use vstd::prelude::*;

use crate::primitives::geometry::Rectangle;
use crate::primitives::interpolate::Interpolate;
use crate::render::{AnimatedJoin, AnimationDomain, ContentShape, IntrinsicShape};

verus! {

/// A render tree node that clips its children
#[derive(Debug, Clone, Copy, PartialEq, Eq, Structural)]
pub struct Clipped<T> {
    pub subtree: T,
    pub clip_rect: Rectangle,
}

impl<T> Clipped<T> {
    pub fn new(subtree: T, clip_rect: Rectangle) -> (r: Self)
        ensures
            r.subtree == subtree,
            r.clip_rect == clip_rect,
    {
        Self { subtree, clip_rect }
    }
}

impl<T: AnimatedJoin> AnimatedJoin for Clipped<T> {
    open spec fn join_ok(self, source: Self, domain: AnimationDomain) -> bool {
        &&& self.subtree.join_ok(source.subtree, domain)
        &&& Rectangle::interpolate_ok(source.clip_rect, self.clip_rect, domain.factor)
    }

    open spec fn joined(self, source: Self, domain: AnimationDomain) -> Self {
        Clipped {
            subtree: self.subtree.joined(source.subtree, domain),
            clip_rect: Rectangle::interpolation(source.clip_rect, self.clip_rect, domain.factor),
        }
    }

    fn join_from(&mut self, source: &Self, domain: &AnimationDomain) {
        self.subtree.join_from(&source.subtree, domain);
        self.clip_rect = Rectangle::interpolate(source.clip_rect, self.clip_rect, domain.factor);
    }
}

impl<T: IntrinsicShape> IntrinsicShape for Clipped<T> {
    open spec fn shape_ok(&self) -> bool {
        self.subtree.shape_ok()
    }

    /// The shape of the subtree; the clip does not cut it.
    open spec fn shape(&self) -> ContentShape {
        self.subtree.shape()
    }

    fn content_shape(&self) -> (r: ContentShape) {
        self.subtree.content_shape()
    }
}

} // verus!
