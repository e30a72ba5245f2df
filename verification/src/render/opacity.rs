use vstd::prelude::*;

use crate::primitives::interpolate::{blend, Interpolate};
use crate::render::{AnimatedJoin, AnimationDomain, ContentShape, IntrinsicShape};

verus! {

/// A render tree node drawing its subtree with the given opacity.
#[derive(Debug, Clone, Copy, PartialEq, Eq, Structural)]
pub struct Opacity<T> {
    pub subtree: T,
    pub opacity: u8,
}

impl<T> Opacity<T> {
    pub fn new(subtree: T, opacity: u8) -> (r: Self)
        ensures
            r.subtree == subtree,
            r.opacity == opacity,
    {
        Self { subtree, opacity }
    }
}

impl<T: AnimatedJoin> AnimatedJoin for Opacity<T> {
    open spec fn join_ok(self, source: Self, domain: AnimationDomain) -> bool {
        self.subtree.join_ok(source.subtree, domain)
    }

    open spec fn joined(self, source: Self, domain: AnimationDomain) -> Self {
        Opacity {
            subtree: self.subtree.joined(source.subtree, domain),
            opacity: blend(source.opacity as int, self.opacity as int, domain.factor as int) as u8,
        }
    }

    fn join_from(&mut self, source: &Self, domain: &AnimationDomain) {
        self.subtree.join_from(&source.subtree, domain);
        self.opacity = u8::interpolate(source.opacity, self.opacity, domain.factor);
    }
}

impl<T: IntrinsicShape> IntrinsicShape for Opacity<T> {
    open spec fn shape_ok(&self) -> bool {
        self.opacity > 0 ==> self.subtree.shape_ok()
    }

    /// A fully transparent node has no content shape.
    open spec fn shape(&self) -> ContentShape {
        if self.opacity > 0 {
            self.subtree.shape()
        } else {
            ContentShape::Empty
        }
    }

    fn content_shape(&self) -> (r: ContentShape) {
        if self.opacity > 0 {
            self.subtree.content_shape()
        } else {
            ContentShape::Empty
        }
    }
}


/// Joining an opacity node takes the source's opacity at factor 0 and keeps
/// its own at factor 255.
pub proof fn lemma_opacity_join_ends<T: AnimatedJoin>(target: Opacity<T>, source: Opacity<T>, domain: AnimationDomain)
    ensures
        domain.factor == 0 ==> target.joined(source, domain).opacity == source.opacity,
        domain.factor == 255 ==> target.joined(source, domain).opacity == target.opacity,
{
    crate::primitives::interpolate::lemma_blend_ends(source.opacity as int, target.opacity as int, 0);
}

} // verus!
