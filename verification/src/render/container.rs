use vstd::prelude::*;

use crate::primitives::geometry::Rectangle;
use crate::primitives::interpolate::Interpolate;
use crate::render::{AnimatedJoin, AnimationDomain, ContentShape, IntrinsicShape};

verus! {

/// A node that tracks a frame and contains a child view.
///
/// This is used to track view frames in event handlers, where only the child frame
/// would otherwise be available.
#[derive(Debug, Clone, Copy, PartialEq, Eq, Structural)]
pub struct Container<T> {
    pub frame: Rectangle,
    pub child: T,
}

impl<T> Container<T> {
    pub fn new(frame: Rectangle, child: T) -> (r: Self)
        ensures
            r.frame == frame,
            r.child == child,
    {
        Self { frame, child }
    }
}

impl<T: AnimatedJoin> AnimatedJoin for Container<T> {
    open spec fn join_ok(self, source: Self, domain: AnimationDomain) -> bool {
        &&& self.child.join_ok(source.child, domain)
        &&& Rectangle::interpolate_ok(source.frame, self.frame, domain.factor)
    }

    open spec fn joined(self, source: Self, domain: AnimationDomain) -> Self {
        Container {
            frame: Rectangle::interpolation(source.frame, self.frame, domain.factor),
            child: self.child.joined(source.child, domain),
        }
    }

    fn join_from(&mut self, source: &Self, domain: &AnimationDomain) {
        self.frame = Rectangle::interpolate(source.frame, self.frame, domain.factor);
        self.child.join_from(&source.child, domain);
    }
}

impl<T: IntrinsicShape> IntrinsicShape for Container<T> {
    open spec fn shape_ok(&self) -> bool {
        self.child.shape_ok()
    }

    open spec fn shape(&self) -> ContentShape {
        self.child.shape()
    }

    fn content_shape(&self) -> (r: ContentShape) {
        self.child.content_shape()
    }
}

} // verus!
