use vstd::prelude::*;

use crate::render::{AnimatedJoin, AnimationDomain, ContentShape, IntrinsicShape};

verus! {

impl AnimatedJoin for () {
    open spec fn join_ok(self, source: Self, domain: AnimationDomain) -> bool {
        true
    }

    open spec fn joined(self, source: Self, domain: AnimationDomain) -> Self {
        ()
    }

    fn join_from(&mut self, _source: &Self, _domain: &AnimationDomain) {
    }
}

impl IntrinsicShape for () {
    open spec fn shape_ok(&self) -> bool {
        true
    }

    open spec fn shape(&self) -> ContentShape {
        ContentShape::Empty
    }

    fn content_shape(&self) -> (r: ContentShape) {
        ContentShape::Empty
    }
}

} // verus!
