use vstd::prelude::*;

use crate::primitives::geometry::Rectangle;
use crate::primitives::geometry::rectangle::{lemma_union_covers, lemma_union_least};
use crate::render::{AnimatedJoin, AnimationDomain, ContentShape, IntrinsicShape};

verus! {

/// Adds the bounding box of `shape`, if any, to an accumulated bounding box.
pub open spec fn union_bbox(acc: Option<Rectangle>, shape: ContentShape) -> Option<Rectangle> {
    match (acc, shape.spec_bounding_box()) {
        (Some(a), Some(b)) => Some(a.spec_union(b)),
        (None, Some(b)) => Some(b),
        (acc, None) => acc,
    }
}

/// Whether `union_bbox` can be computed without overflow.
pub open spec fn union_bbox_ok(acc: Option<Rectangle>, shape: ContentShape) -> bool {
    match (acc, shape.spec_bounding_box()) {
        (Some(a), Some(b)) => a.can_union(b),
        _ => true,
    }
}

/// The bounding box of all shapes, folded from the first to the last.
pub open spec fn fold_bbox(shapes: Seq<ContentShape>) -> Option<Rectangle>
    decreases shapes.len(),
{
    if shapes.len() == 0 {
        None
    } else {
        union_bbox(fold_bbox(shapes.drop_last()), shapes.last())
    }
}

pub open spec fn fold_bbox_ok(shapes: Seq<ContentShape>) -> bool
    decreases shapes.len(),
{
    if shapes.len() == 0 {
        true
    } else {
        fold_bbox_ok(shapes.drop_last()) && union_bbox_ok(fold_bbox(shapes.drop_last()), shapes.last())
    }
}

/// A collection's content shape: the rectangle bounding all members, or
/// nothing when no member has a shape.
pub open spec fn boxes_shape(bbox: Option<Rectangle>) -> ContentShape {
    match bbox {
        Some(r) => ContentShape::Rectangle(r),
        None => ContentShape::Empty,
    }
}

fn add_bbox(acc: Option<Rectangle>, shape: &ContentShape) -> (r: Option<Rectangle>)
    requires
        union_bbox_ok(acc, *shape),
    ensures
        r == union_bbox(acc, *shape),
{
    match shape.bounding_box() {
        Some(bbox) => match acc {
            Some(a) => Some(a.union(&bbox)),
            None => Some(bbox),
        },
        None => acc,
    }
}

fn shape_of_boxes(bbox: Option<Rectangle>) -> (r: ContentShape)
    ensures
        r == boxes_shape(bbox),
{
    match bbox {
        Some(r) => ContentShape::Rectangle(r),
        None => ContentShape::Empty,
    }
}

impl<T0: AnimatedJoin, T1: AnimatedJoin> AnimatedJoin for (T0, T1) {
    open spec fn join_ok(self, source: Self, domain: AnimationDomain) -> bool {
        self.0.join_ok(source.0, domain) && self.1.join_ok(source.1, domain)
    }

    open spec fn joined(self, source: Self, domain: AnimationDomain) -> Self {
        (self.0.joined(source.0, domain), self.1.joined(source.1, domain))
    }

    fn join_from(&mut self, source: &Self, domain: &AnimationDomain) {
        self.0.join_from(&source.0, domain);
        self.1.join_from(&source.1, domain);
    }
}

impl<T0: AnimatedJoin, T1: AnimatedJoin, T2: AnimatedJoin> AnimatedJoin for (T0, T1, T2) {
    open spec fn join_ok(self, source: Self, domain: AnimationDomain) -> bool {
        &&& self.0.join_ok(source.0, domain)
        &&& self.1.join_ok(source.1, domain)
        &&& self.2.join_ok(source.2, domain)
    }

    open spec fn joined(self, source: Self, domain: AnimationDomain) -> Self {
        (
            self.0.joined(source.0, domain),
            self.1.joined(source.1, domain),
            self.2.joined(source.2, domain),
        )
    }

    fn join_from(&mut self, source: &Self, domain: &AnimationDomain) {
        self.0.join_from(&source.0, domain);
        self.1.join_from(&source.1, domain);
        self.2.join_from(&source.2, domain);
    }
}

impl<T0: IntrinsicShape, T1: IntrinsicShape> IntrinsicShape for (T0, T1) {
    open spec fn shape_ok(&self) -> bool {
        &&& self.0.shape_ok()
        &&& self.1.shape_ok()
        &&& fold_bbox_ok(seq![self.0.shape(), self.1.shape()])
    }

    /// The rectangle bounding the members' shapes.
    open spec fn shape(&self) -> ContentShape {
        boxes_shape(fold_bbox(seq![self.0.shape(), self.1.shape()]))
    }

    fn content_shape(&self) -> (r: ContentShape) {
        let ghost shapes = seq![self.0.shape(), self.1.shape()];
        assert(shapes.drop_last() == seq![self.0.shape()]);
        assert(shapes.drop_last().drop_last() =~= Seq::<ContentShape>::empty());
        proof {
            reveal_with_fuel(fold_bbox, 3);
            reveal_with_fuel(fold_bbox_ok, 3);
        }
        let s0 = self.0.content_shape();
        let acc = add_bbox(None, &s0);
        let s1 = self.1.content_shape();
        let acc = add_bbox(acc, &s1);
        shape_of_boxes(acc)
    }
}

impl<T0: IntrinsicShape, T1: IntrinsicShape, T2: IntrinsicShape> IntrinsicShape for (T0, T1, T2) {
    open spec fn shape_ok(&self) -> bool {
        &&& self.0.shape_ok()
        &&& self.1.shape_ok()
        &&& self.2.shape_ok()
        &&& fold_bbox_ok(seq![self.0.shape(), self.1.shape(), self.2.shape()])
    }

    /// The rectangle bounding the members' shapes.
    open spec fn shape(&self) -> ContentShape {
        boxes_shape(fold_bbox(seq![self.0.shape(), self.1.shape(), self.2.shape()]))
    }

    fn content_shape(&self) -> (r: ContentShape) {
        let ghost shapes = seq![self.0.shape(), self.1.shape(), self.2.shape()];
        assert(shapes.drop_last() == seq![self.0.shape(), self.1.shape()]);
        assert(shapes.drop_last().drop_last() == seq![self.0.shape()]);
        assert(shapes.drop_last().drop_last().drop_last() =~= Seq::<ContentShape>::empty());
        proof {
            reveal_with_fuel(fold_bbox, 4);
            reveal_with_fuel(fold_bbox_ok, 4);
        }
        let s0 = self.0.content_shape();
        let acc = add_bbox(None, &s0);
        let s1 = self.1.content_shape();
        let acc = add_bbox(acc, &s1);
        let s2 = self.2.content_shape();
        let acc = add_bbox(acc, &s2);
        shape_of_boxes(acc)
    }
}

impl<T0: AnimatedJoin, T1: AnimatedJoin, T2: AnimatedJoin, T3: AnimatedJoin> AnimatedJoin for (T0, T1, T2, T3) {
    open spec fn join_ok(self, source: Self, domain: AnimationDomain) -> bool {
        &&& self.0.join_ok(source.0, domain)
        &&& self.1.join_ok(source.1, domain)
        &&& self.2.join_ok(source.2, domain)
        &&& self.3.join_ok(source.3, domain)
    }

    open spec fn joined(self, source: Self, domain: AnimationDomain) -> Self {
        (
            self.0.joined(source.0, domain),
            self.1.joined(source.1, domain),
            self.2.joined(source.2, domain),
            self.3.joined(source.3, domain),
        )
    }

    fn join_from(&mut self, source: &Self, domain: &AnimationDomain) {
        self.0.join_from(&source.0, domain);
        self.1.join_from(&source.1, domain);
        self.2.join_from(&source.2, domain);
        self.3.join_from(&source.3, domain);
    }
}

impl<T0: IntrinsicShape, T1: IntrinsicShape, T2: IntrinsicShape, T3: IntrinsicShape> IntrinsicShape for (T0, T1, T2, T3) {
    open spec fn shape_ok(&self) -> bool {
        &&& self.0.shape_ok()
        &&& self.1.shape_ok()
        &&& self.2.shape_ok()
        &&& self.3.shape_ok()
        &&& fold_bbox_ok(seq![self.0.shape(), self.1.shape(), self.2.shape(), self.3.shape()])
    }

    /// The rectangle bounding the members' shapes.
    open spec fn shape(&self) -> ContentShape {
        boxes_shape(fold_bbox(seq![self.0.shape(), self.1.shape(), self.2.shape(), self.3.shape()]))
    }

    fn content_shape(&self) -> (r: ContentShape) {
        let ghost shapes = seq![self.0.shape(), self.1.shape(), self.2.shape(), self.3.shape()];
        assert(shapes.drop_last() == seq![self.0.shape(), self.1.shape(), self.2.shape()]);
        assert(shapes.drop_last().drop_last() == seq![self.0.shape(), self.1.shape()]);
        assert(shapes.drop_last().drop_last().drop_last() == seq![self.0.shape()]);
        assert(shapes.drop_last().drop_last().drop_last().drop_last() =~= Seq::<ContentShape>::empty());
        proof {
            reveal_with_fuel(fold_bbox, 5);
            reveal_with_fuel(fold_bbox_ok, 5);
        }
        let s0 = self.0.content_shape();
        let acc = add_bbox(None, &s0);
        let s1 = self.1.content_shape();
        let acc = add_bbox(acc, &s1);
        let s2 = self.2.content_shape();
        let acc = add_bbox(acc, &s2);
        let s3 = self.3.content_shape();
        let acc = add_bbox(acc, &s3);
        shape_of_boxes(acc)
    }
}

impl<T0: AnimatedJoin, T1: AnimatedJoin, T2: AnimatedJoin, T3: AnimatedJoin, T4: AnimatedJoin> AnimatedJoin for (T0, T1, T2, T3, T4) {
    open spec fn join_ok(self, source: Self, domain: AnimationDomain) -> bool {
        &&& self.0.join_ok(source.0, domain)
        &&& self.1.join_ok(source.1, domain)
        &&& self.2.join_ok(source.2, domain)
        &&& self.3.join_ok(source.3, domain)
        &&& self.4.join_ok(source.4, domain)
    }

    open spec fn joined(self, source: Self, domain: AnimationDomain) -> Self {
        (
            self.0.joined(source.0, domain),
            self.1.joined(source.1, domain),
            self.2.joined(source.2, domain),
            self.3.joined(source.3, domain),
            self.4.joined(source.4, domain),
        )
    }

    fn join_from(&mut self, source: &Self, domain: &AnimationDomain) {
        self.0.join_from(&source.0, domain);
        self.1.join_from(&source.1, domain);
        self.2.join_from(&source.2, domain);
        self.3.join_from(&source.3, domain);
        self.4.join_from(&source.4, domain);
    }
}

impl<T0: IntrinsicShape, T1: IntrinsicShape, T2: IntrinsicShape, T3: IntrinsicShape, T4: IntrinsicShape> IntrinsicShape for (T0, T1, T2, T3, T4) {
    open spec fn shape_ok(&self) -> bool {
        &&& self.0.shape_ok()
        &&& self.1.shape_ok()
        &&& self.2.shape_ok()
        &&& self.3.shape_ok()
        &&& self.4.shape_ok()
        &&& fold_bbox_ok(seq![self.0.shape(), self.1.shape(), self.2.shape(), self.3.shape(), self.4.shape()])
    }

    /// The rectangle bounding the members' shapes.
    open spec fn shape(&self) -> ContentShape {
        boxes_shape(fold_bbox(seq![self.0.shape(), self.1.shape(), self.2.shape(), self.3.shape(), self.4.shape()]))
    }

    fn content_shape(&self) -> (r: ContentShape) {
        let ghost shapes = seq![self.0.shape(), self.1.shape(), self.2.shape(), self.3.shape(), self.4.shape()];
        assert(shapes.drop_last() == seq![self.0.shape(), self.1.shape(), self.2.shape(), self.3.shape()]);
        assert(shapes.drop_last().drop_last() == seq![self.0.shape(), self.1.shape(), self.2.shape()]);
        assert(shapes.drop_last().drop_last().drop_last() == seq![self.0.shape(), self.1.shape()]);
        assert(shapes.drop_last().drop_last().drop_last().drop_last() == seq![self.0.shape()]);
        assert(shapes.drop_last().drop_last().drop_last().drop_last().drop_last() =~= Seq::<ContentShape>::empty());
        proof {
            reveal_with_fuel(fold_bbox, 6);
            reveal_with_fuel(fold_bbox_ok, 6);
        }
        let s0 = self.0.content_shape();
        let acc = add_bbox(None, &s0);
        let s1 = self.1.content_shape();
        let acc = add_bbox(acc, &s1);
        let s2 = self.2.content_shape();
        let acc = add_bbox(acc, &s2);
        let s3 = self.3.content_shape();
        let acc = add_bbox(acc, &s3);
        let s4 = self.4.content_shape();
        let acc = add_bbox(acc, &s4);
        shape_of_boxes(acc)
    }
}

impl<T0: AnimatedJoin, T1: AnimatedJoin, T2: AnimatedJoin, T3: AnimatedJoin, T4: AnimatedJoin, T5: AnimatedJoin> AnimatedJoin for (T0, T1, T2, T3, T4, T5) {
    open spec fn join_ok(self, source: Self, domain: AnimationDomain) -> bool {
        &&& self.0.join_ok(source.0, domain)
        &&& self.1.join_ok(source.1, domain)
        &&& self.2.join_ok(source.2, domain)
        &&& self.3.join_ok(source.3, domain)
        &&& self.4.join_ok(source.4, domain)
        &&& self.5.join_ok(source.5, domain)
    }

    open spec fn joined(self, source: Self, domain: AnimationDomain) -> Self {
        (
            self.0.joined(source.0, domain),
            self.1.joined(source.1, domain),
            self.2.joined(source.2, domain),
            self.3.joined(source.3, domain),
            self.4.joined(source.4, domain),
            self.5.joined(source.5, domain),
        )
    }

    fn join_from(&mut self, source: &Self, domain: &AnimationDomain) {
        self.0.join_from(&source.0, domain);
        self.1.join_from(&source.1, domain);
        self.2.join_from(&source.2, domain);
        self.3.join_from(&source.3, domain);
        self.4.join_from(&source.4, domain);
        self.5.join_from(&source.5, domain);
    }
}

impl<T0: IntrinsicShape, T1: IntrinsicShape, T2: IntrinsicShape, T3: IntrinsicShape, T4: IntrinsicShape, T5: IntrinsicShape> IntrinsicShape for (T0, T1, T2, T3, T4, T5) {
    open spec fn shape_ok(&self) -> bool {
        &&& self.0.shape_ok()
        &&& self.1.shape_ok()
        &&& self.2.shape_ok()
        &&& self.3.shape_ok()
        &&& self.4.shape_ok()
        &&& self.5.shape_ok()
        &&& fold_bbox_ok(seq![self.0.shape(), self.1.shape(), self.2.shape(), self.3.shape(), self.4.shape(), self.5.shape()])
    }

    /// The rectangle bounding the members' shapes.
    open spec fn shape(&self) -> ContentShape {
        boxes_shape(fold_bbox(seq![self.0.shape(), self.1.shape(), self.2.shape(), self.3.shape(), self.4.shape(), self.5.shape()]))
    }

    fn content_shape(&self) -> (r: ContentShape) {
        let ghost shapes = seq![self.0.shape(), self.1.shape(), self.2.shape(), self.3.shape(), self.4.shape(), self.5.shape()];
        assert(shapes.drop_last() == seq![self.0.shape(), self.1.shape(), self.2.shape(), self.3.shape(), self.4.shape()]);
        assert(shapes.drop_last().drop_last() == seq![self.0.shape(), self.1.shape(), self.2.shape(), self.3.shape()]);
        assert(shapes.drop_last().drop_last().drop_last() == seq![self.0.shape(), self.1.shape(), self.2.shape()]);
        assert(shapes.drop_last().drop_last().drop_last().drop_last() == seq![self.0.shape(), self.1.shape()]);
        assert(shapes.drop_last().drop_last().drop_last().drop_last().drop_last() == seq![self.0.shape()]);
        assert(shapes.drop_last().drop_last().drop_last().drop_last().drop_last().drop_last() =~= Seq::<ContentShape>::empty());
        proof {
            reveal_with_fuel(fold_bbox, 7);
            reveal_with_fuel(fold_bbox_ok, 7);
        }
        let s0 = self.0.content_shape();
        let acc = add_bbox(None, &s0);
        let s1 = self.1.content_shape();
        let acc = add_bbox(acc, &s1);
        let s2 = self.2.content_shape();
        let acc = add_bbox(acc, &s2);
        let s3 = self.3.content_shape();
        let acc = add_bbox(acc, &s3);
        let s4 = self.4.content_shape();
        let acc = add_bbox(acc, &s4);
        let s5 = self.5.content_shape();
        let acc = add_bbox(acc, &s5);
        shape_of_boxes(acc)
    }
}

impl<T0: AnimatedJoin, T1: AnimatedJoin, T2: AnimatedJoin, T3: AnimatedJoin, T4: AnimatedJoin, T5: AnimatedJoin, T6: AnimatedJoin> AnimatedJoin for (T0, T1, T2, T3, T4, T5, T6) {
    open spec fn join_ok(self, source: Self, domain: AnimationDomain) -> bool {
        &&& self.0.join_ok(source.0, domain)
        &&& self.1.join_ok(source.1, domain)
        &&& self.2.join_ok(source.2, domain)
        &&& self.3.join_ok(source.3, domain)
        &&& self.4.join_ok(source.4, domain)
        &&& self.5.join_ok(source.5, domain)
        &&& self.6.join_ok(source.6, domain)
    }

    open spec fn joined(self, source: Self, domain: AnimationDomain) -> Self {
        (
            self.0.joined(source.0, domain),
            self.1.joined(source.1, domain),
            self.2.joined(source.2, domain),
            self.3.joined(source.3, domain),
            self.4.joined(source.4, domain),
            self.5.joined(source.5, domain),
            self.6.joined(source.6, domain),
        )
    }

    fn join_from(&mut self, source: &Self, domain: &AnimationDomain) {
        self.0.join_from(&source.0, domain);
        self.1.join_from(&source.1, domain);
        self.2.join_from(&source.2, domain);
        self.3.join_from(&source.3, domain);
        self.4.join_from(&source.4, domain);
        self.5.join_from(&source.5, domain);
        self.6.join_from(&source.6, domain);
    }
}

impl<T0: IntrinsicShape, T1: IntrinsicShape, T2: IntrinsicShape, T3: IntrinsicShape, T4: IntrinsicShape, T5: IntrinsicShape, T6: IntrinsicShape> IntrinsicShape for (T0, T1, T2, T3, T4, T5, T6) {
    open spec fn shape_ok(&self) -> bool {
        &&& self.0.shape_ok()
        &&& self.1.shape_ok()
        &&& self.2.shape_ok()
        &&& self.3.shape_ok()
        &&& self.4.shape_ok()
        &&& self.5.shape_ok()
        &&& self.6.shape_ok()
        &&& fold_bbox_ok(seq![self.0.shape(), self.1.shape(), self.2.shape(), self.3.shape(), self.4.shape(), self.5.shape(), self.6.shape()])
    }

    /// The rectangle bounding the members' shapes.
    open spec fn shape(&self) -> ContentShape {
        boxes_shape(fold_bbox(seq![self.0.shape(), self.1.shape(), self.2.shape(), self.3.shape(), self.4.shape(), self.5.shape(), self.6.shape()]))
    }

    fn content_shape(&self) -> (r: ContentShape) {
        let ghost shapes = seq![self.0.shape(), self.1.shape(), self.2.shape(), self.3.shape(), self.4.shape(), self.5.shape(), self.6.shape()];
        assert(shapes.drop_last() == seq![self.0.shape(), self.1.shape(), self.2.shape(), self.3.shape(), self.4.shape(), self.5.shape()]);
        assert(shapes.drop_last().drop_last() == seq![self.0.shape(), self.1.shape(), self.2.shape(), self.3.shape(), self.4.shape()]);
        assert(shapes.drop_last().drop_last().drop_last() == seq![self.0.shape(), self.1.shape(), self.2.shape(), self.3.shape()]);
        assert(shapes.drop_last().drop_last().drop_last().drop_last() == seq![self.0.shape(), self.1.shape(), self.2.shape()]);
        assert(shapes.drop_last().drop_last().drop_last().drop_last().drop_last() == seq![self.0.shape(), self.1.shape()]);
        assert(shapes.drop_last().drop_last().drop_last().drop_last().drop_last().drop_last() == seq![self.0.shape()]);
        assert(shapes.drop_last().drop_last().drop_last().drop_last().drop_last().drop_last().drop_last() =~= Seq::<ContentShape>::empty());
        proof {
            reveal_with_fuel(fold_bbox, 8);
            reveal_with_fuel(fold_bbox_ok, 8);
        }
        let s0 = self.0.content_shape();
        let acc = add_bbox(None, &s0);
        let s1 = self.1.content_shape();
        let acc = add_bbox(acc, &s1);
        let s2 = self.2.content_shape();
        let acc = add_bbox(acc, &s2);
        let s3 = self.3.content_shape();
        let acc = add_bbox(acc, &s3);
        let s4 = self.4.content_shape();
        let acc = add_bbox(acc, &s4);
        let s5 = self.5.content_shape();
        let acc = add_bbox(acc, &s5);
        let s6 = self.6.content_shape();
        let acc = add_bbox(acc, &s6);
        shape_of_boxes(acc)
    }
}

impl<T0: AnimatedJoin, T1: AnimatedJoin, T2: AnimatedJoin, T3: AnimatedJoin, T4: AnimatedJoin, T5: AnimatedJoin, T6: AnimatedJoin, T7: AnimatedJoin> AnimatedJoin for (T0, T1, T2, T3, T4, T5, T6, T7) {
    open spec fn join_ok(self, source: Self, domain: AnimationDomain) -> bool {
        &&& self.0.join_ok(source.0, domain)
        &&& self.1.join_ok(source.1, domain)
        &&& self.2.join_ok(source.2, domain)
        &&& self.3.join_ok(source.3, domain)
        &&& self.4.join_ok(source.4, domain)
        &&& self.5.join_ok(source.5, domain)
        &&& self.6.join_ok(source.6, domain)
        &&& self.7.join_ok(source.7, domain)
    }

    open spec fn joined(self, source: Self, domain: AnimationDomain) -> Self {
        (
            self.0.joined(source.0, domain),
            self.1.joined(source.1, domain),
            self.2.joined(source.2, domain),
            self.3.joined(source.3, domain),
            self.4.joined(source.4, domain),
            self.5.joined(source.5, domain),
            self.6.joined(source.6, domain),
            self.7.joined(source.7, domain),
        )
    }

    fn join_from(&mut self, source: &Self, domain: &AnimationDomain) {
        self.0.join_from(&source.0, domain);
        self.1.join_from(&source.1, domain);
        self.2.join_from(&source.2, domain);
        self.3.join_from(&source.3, domain);
        self.4.join_from(&source.4, domain);
        self.5.join_from(&source.5, domain);
        self.6.join_from(&source.6, domain);
        self.7.join_from(&source.7, domain);
    }
}

impl<T0: IntrinsicShape, T1: IntrinsicShape, T2: IntrinsicShape, T3: IntrinsicShape, T4: IntrinsicShape, T5: IntrinsicShape, T6: IntrinsicShape, T7: IntrinsicShape> IntrinsicShape for (T0, T1, T2, T3, T4, T5, T6, T7) {
    open spec fn shape_ok(&self) -> bool {
        &&& self.0.shape_ok()
        &&& self.1.shape_ok()
        &&& self.2.shape_ok()
        &&& self.3.shape_ok()
        &&& self.4.shape_ok()
        &&& self.5.shape_ok()
        &&& self.6.shape_ok()
        &&& self.7.shape_ok()
        &&& fold_bbox_ok(seq![self.0.shape(), self.1.shape(), self.2.shape(), self.3.shape(), self.4.shape(), self.5.shape(), self.6.shape(), self.7.shape()])
    }

    /// The rectangle bounding the members' shapes.
    open spec fn shape(&self) -> ContentShape {
        boxes_shape(fold_bbox(seq![self.0.shape(), self.1.shape(), self.2.shape(), self.3.shape(), self.4.shape(), self.5.shape(), self.6.shape(), self.7.shape()]))
    }

    fn content_shape(&self) -> (r: ContentShape) {
        let ghost shapes = seq![self.0.shape(), self.1.shape(), self.2.shape(), self.3.shape(), self.4.shape(), self.5.shape(), self.6.shape(), self.7.shape()];
        assert(shapes.drop_last() == seq![self.0.shape(), self.1.shape(), self.2.shape(), self.3.shape(), self.4.shape(), self.5.shape(), self.6.shape()]);
        assert(shapes.drop_last().drop_last() == seq![self.0.shape(), self.1.shape(), self.2.shape(), self.3.shape(), self.4.shape(), self.5.shape()]);
        assert(shapes.drop_last().drop_last().drop_last() == seq![self.0.shape(), self.1.shape(), self.2.shape(), self.3.shape(), self.4.shape()]);
        assert(shapes.drop_last().drop_last().drop_last().drop_last() == seq![self.0.shape(), self.1.shape(), self.2.shape(), self.3.shape()]);
        assert(shapes.drop_last().drop_last().drop_last().drop_last().drop_last() == seq![self.0.shape(), self.1.shape(), self.2.shape()]);
        assert(shapes.drop_last().drop_last().drop_last().drop_last().drop_last().drop_last() == seq![self.0.shape(), self.1.shape()]);
        assert(shapes.drop_last().drop_last().drop_last().drop_last().drop_last().drop_last().drop_last() == seq![self.0.shape()]);
        assert(shapes.drop_last().drop_last().drop_last().drop_last().drop_last().drop_last().drop_last().drop_last() =~= Seq::<ContentShape>::empty());
        proof {
            reveal_with_fuel(fold_bbox, 9);
            reveal_with_fuel(fold_bbox_ok, 9);
        }
        let s0 = self.0.content_shape();
        let acc = add_bbox(None, &s0);
        let s1 = self.1.content_shape();
        let acc = add_bbox(acc, &s1);
        let s2 = self.2.content_shape();
        let acc = add_bbox(acc, &s2);
        let s3 = self.3.content_shape();
        let acc = add_bbox(acc, &s3);
        let s4 = self.4.content_shape();
        let acc = add_bbox(acc, &s4);
        let s5 = self.5.content_shape();
        let acc = add_bbox(acc, &s5);
        let s6 = self.6.content_shape();
        let acc = add_bbox(acc, &s6);
        let s7 = self.7.content_shape();
        let acc = add_bbox(acc, &s7);
        shape_of_boxes(acc)
    }
}

impl<T0: AnimatedJoin, T1: AnimatedJoin, T2: AnimatedJoin, T3: AnimatedJoin, T4: AnimatedJoin, T5: AnimatedJoin, T6: AnimatedJoin, T7: AnimatedJoin, T8: AnimatedJoin> AnimatedJoin for (T0, T1, T2, T3, T4, T5, T6, T7, T8) {
    open spec fn join_ok(self, source: Self, domain: AnimationDomain) -> bool {
        &&& self.0.join_ok(source.0, domain)
        &&& self.1.join_ok(source.1, domain)
        &&& self.2.join_ok(source.2, domain)
        &&& self.3.join_ok(source.3, domain)
        &&& self.4.join_ok(source.4, domain)
        &&& self.5.join_ok(source.5, domain)
        &&& self.6.join_ok(source.6, domain)
        &&& self.7.join_ok(source.7, domain)
        &&& self.8.join_ok(source.8, domain)
    }

    open spec fn joined(self, source: Self, domain: AnimationDomain) -> Self {
        (
            self.0.joined(source.0, domain),
            self.1.joined(source.1, domain),
            self.2.joined(source.2, domain),
            self.3.joined(source.3, domain),
            self.4.joined(source.4, domain),
            self.5.joined(source.5, domain),
            self.6.joined(source.6, domain),
            self.7.joined(source.7, domain),
            self.8.joined(source.8, domain),
        )
    }

    fn join_from(&mut self, source: &Self, domain: &AnimationDomain) {
        self.0.join_from(&source.0, domain);
        self.1.join_from(&source.1, domain);
        self.2.join_from(&source.2, domain);
        self.3.join_from(&source.3, domain);
        self.4.join_from(&source.4, domain);
        self.5.join_from(&source.5, domain);
        self.6.join_from(&source.6, domain);
        self.7.join_from(&source.7, domain);
        self.8.join_from(&source.8, domain);
    }
}

impl<T0: IntrinsicShape, T1: IntrinsicShape, T2: IntrinsicShape, T3: IntrinsicShape, T4: IntrinsicShape, T5: IntrinsicShape, T6: IntrinsicShape, T7: IntrinsicShape, T8: IntrinsicShape> IntrinsicShape for (T0, T1, T2, T3, T4, T5, T6, T7, T8) {
    open spec fn shape_ok(&self) -> bool {
        &&& self.0.shape_ok()
        &&& self.1.shape_ok()
        &&& self.2.shape_ok()
        &&& self.3.shape_ok()
        &&& self.4.shape_ok()
        &&& self.5.shape_ok()
        &&& self.6.shape_ok()
        &&& self.7.shape_ok()
        &&& self.8.shape_ok()
        &&& fold_bbox_ok(seq![self.0.shape(), self.1.shape(), self.2.shape(), self.3.shape(), self.4.shape(), self.5.shape(), self.6.shape(), self.7.shape(), self.8.shape()])
    }

    /// The rectangle bounding the members' shapes.
    open spec fn shape(&self) -> ContentShape {
        boxes_shape(fold_bbox(seq![self.0.shape(), self.1.shape(), self.2.shape(), self.3.shape(), self.4.shape(), self.5.shape(), self.6.shape(), self.7.shape(), self.8.shape()]))
    }

    fn content_shape(&self) -> (r: ContentShape) {
        let ghost shapes = seq![self.0.shape(), self.1.shape(), self.2.shape(), self.3.shape(), self.4.shape(), self.5.shape(), self.6.shape(), self.7.shape(), self.8.shape()];
        assert(shapes.drop_last() == seq![self.0.shape(), self.1.shape(), self.2.shape(), self.3.shape(), self.4.shape(), self.5.shape(), self.6.shape(), self.7.shape()]);
        assert(shapes.drop_last().drop_last() == seq![self.0.shape(), self.1.shape(), self.2.shape(), self.3.shape(), self.4.shape(), self.5.shape(), self.6.shape()]);
        assert(shapes.drop_last().drop_last().drop_last() == seq![self.0.shape(), self.1.shape(), self.2.shape(), self.3.shape(), self.4.shape(), self.5.shape()]);
        assert(shapes.drop_last().drop_last().drop_last().drop_last() == seq![self.0.shape(), self.1.shape(), self.2.shape(), self.3.shape(), self.4.shape()]);
        assert(shapes.drop_last().drop_last().drop_last().drop_last().drop_last() == seq![self.0.shape(), self.1.shape(), self.2.shape(), self.3.shape()]);
        assert(shapes.drop_last().drop_last().drop_last().drop_last().drop_last().drop_last() == seq![self.0.shape(), self.1.shape(), self.2.shape()]);
        assert(shapes.drop_last().drop_last().drop_last().drop_last().drop_last().drop_last().drop_last() == seq![self.0.shape(), self.1.shape()]);
        assert(shapes.drop_last().drop_last().drop_last().drop_last().drop_last().drop_last().drop_last().drop_last() == seq![self.0.shape()]);
        assert(shapes.drop_last().drop_last().drop_last().drop_last().drop_last().drop_last().drop_last().drop_last().drop_last() =~= Seq::<ContentShape>::empty());
        proof {
            reveal_with_fuel(fold_bbox, 10);
            reveal_with_fuel(fold_bbox_ok, 10);
        }
        let s0 = self.0.content_shape();
        let acc = add_bbox(None, &s0);
        let s1 = self.1.content_shape();
        let acc = add_bbox(acc, &s1);
        let s2 = self.2.content_shape();
        let acc = add_bbox(acc, &s2);
        let s3 = self.3.content_shape();
        let acc = add_bbox(acc, &s3);
        let s4 = self.4.content_shape();
        let acc = add_bbox(acc, &s4);
        let s5 = self.5.content_shape();
        let acc = add_bbox(acc, &s5);
        let s6 = self.6.content_shape();
        let acc = add_bbox(acc, &s6);
        let s7 = self.7.content_shape();
        let acc = add_bbox(acc, &s7);
        let s8 = self.8.content_shape();
        let acc = add_bbox(acc, &s8);
        shape_of_boxes(acc)
    }
}

impl<T0: AnimatedJoin, T1: AnimatedJoin, T2: AnimatedJoin, T3: AnimatedJoin, T4: AnimatedJoin, T5: AnimatedJoin, T6: AnimatedJoin, T7: AnimatedJoin, T8: AnimatedJoin, T9: AnimatedJoin> AnimatedJoin for (T0, T1, T2, T3, T4, T5, T6, T7, T8, T9) {
    open spec fn join_ok(self, source: Self, domain: AnimationDomain) -> bool {
        &&& self.0.join_ok(source.0, domain)
        &&& self.1.join_ok(source.1, domain)
        &&& self.2.join_ok(source.2, domain)
        &&& self.3.join_ok(source.3, domain)
        &&& self.4.join_ok(source.4, domain)
        &&& self.5.join_ok(source.5, domain)
        &&& self.6.join_ok(source.6, domain)
        &&& self.7.join_ok(source.7, domain)
        &&& self.8.join_ok(source.8, domain)
        &&& self.9.join_ok(source.9, domain)
    }

    open spec fn joined(self, source: Self, domain: AnimationDomain) -> Self {
        (
            self.0.joined(source.0, domain),
            self.1.joined(source.1, domain),
            self.2.joined(source.2, domain),
            self.3.joined(source.3, domain),
            self.4.joined(source.4, domain),
            self.5.joined(source.5, domain),
            self.6.joined(source.6, domain),
            self.7.joined(source.7, domain),
            self.8.joined(source.8, domain),
            self.9.joined(source.9, domain),
        )
    }

    fn join_from(&mut self, source: &Self, domain: &AnimationDomain) {
        self.0.join_from(&source.0, domain);
        self.1.join_from(&source.1, domain);
        self.2.join_from(&source.2, domain);
        self.3.join_from(&source.3, domain);
        self.4.join_from(&source.4, domain);
        self.5.join_from(&source.5, domain);
        self.6.join_from(&source.6, domain);
        self.7.join_from(&source.7, domain);
        self.8.join_from(&source.8, domain);
        self.9.join_from(&source.9, domain);
    }
}

impl<T0: IntrinsicShape, T1: IntrinsicShape, T2: IntrinsicShape, T3: IntrinsicShape, T4: IntrinsicShape, T5: IntrinsicShape, T6: IntrinsicShape, T7: IntrinsicShape, T8: IntrinsicShape, T9: IntrinsicShape> IntrinsicShape for (T0, T1, T2, T3, T4, T5, T6, T7, T8, T9) {
    open spec fn shape_ok(&self) -> bool {
        &&& self.0.shape_ok()
        &&& self.1.shape_ok()
        &&& self.2.shape_ok()
        &&& self.3.shape_ok()
        &&& self.4.shape_ok()
        &&& self.5.shape_ok()
        &&& self.6.shape_ok()
        &&& self.7.shape_ok()
        &&& self.8.shape_ok()
        &&& self.9.shape_ok()
        &&& fold_bbox_ok(seq![self.0.shape(), self.1.shape(), self.2.shape(), self.3.shape(), self.4.shape(), self.5.shape(), self.6.shape(), self.7.shape(), self.8.shape(), self.9.shape()])
    }

    /// The rectangle bounding the members' shapes.
    open spec fn shape(&self) -> ContentShape {
        boxes_shape(fold_bbox(seq![self.0.shape(), self.1.shape(), self.2.shape(), self.3.shape(), self.4.shape(), self.5.shape(), self.6.shape(), self.7.shape(), self.8.shape(), self.9.shape()]))
    }

    fn content_shape(&self) -> (r: ContentShape) {
        let ghost shapes = seq![self.0.shape(), self.1.shape(), self.2.shape(), self.3.shape(), self.4.shape(), self.5.shape(), self.6.shape(), self.7.shape(), self.8.shape(), self.9.shape()];
        assert(shapes.drop_last() == seq![self.0.shape(), self.1.shape(), self.2.shape(), self.3.shape(), self.4.shape(), self.5.shape(), self.6.shape(), self.7.shape(), self.8.shape()]);
        assert(shapes.drop_last().drop_last() == seq![self.0.shape(), self.1.shape(), self.2.shape(), self.3.shape(), self.4.shape(), self.5.shape(), self.6.shape(), self.7.shape()]);
        assert(shapes.drop_last().drop_last().drop_last() == seq![self.0.shape(), self.1.shape(), self.2.shape(), self.3.shape(), self.4.shape(), self.5.shape(), self.6.shape()]);
        assert(shapes.drop_last().drop_last().drop_last().drop_last() == seq![self.0.shape(), self.1.shape(), self.2.shape(), self.3.shape(), self.4.shape(), self.5.shape()]);
        assert(shapes.drop_last().drop_last().drop_last().drop_last().drop_last() == seq![self.0.shape(), self.1.shape(), self.2.shape(), self.3.shape(), self.4.shape()]);
        assert(shapes.drop_last().drop_last().drop_last().drop_last().drop_last().drop_last() == seq![self.0.shape(), self.1.shape(), self.2.shape(), self.3.shape()]);
        assert(shapes.drop_last().drop_last().drop_last().drop_last().drop_last().drop_last().drop_last() == seq![self.0.shape(), self.1.shape(), self.2.shape()]);
        assert(shapes.drop_last().drop_last().drop_last().drop_last().drop_last().drop_last().drop_last().drop_last() == seq![self.0.shape(), self.1.shape()]);
        assert(shapes.drop_last().drop_last().drop_last().drop_last().drop_last().drop_last().drop_last().drop_last().drop_last() == seq![self.0.shape()]);
        assert(shapes.drop_last().drop_last().drop_last().drop_last().drop_last().drop_last().drop_last().drop_last().drop_last().drop_last() =~= Seq::<ContentShape>::empty());
        proof {
            reveal_with_fuel(fold_bbox, 11);
            reveal_with_fuel(fold_bbox_ok, 11);
        }
        let s0 = self.0.content_shape();
        let acc = add_bbox(None, &s0);
        let s1 = self.1.content_shape();
        let acc = add_bbox(acc, &s1);
        let s2 = self.2.content_shape();
        let acc = add_bbox(acc, &s2);
        let s3 = self.3.content_shape();
        let acc = add_bbox(acc, &s3);
        let s4 = self.4.content_shape();
        let acc = add_bbox(acc, &s4);
        let s5 = self.5.content_shape();
        let acc = add_bbox(acc, &s5);
        let s6 = self.6.content_shape();
        let acc = add_bbox(acc, &s6);
        let s7 = self.7.content_shape();
        let acc = add_bbox(acc, &s7);
        let s8 = self.8.content_shape();
        let acc = add_bbox(acc, &s8);
        let s9 = self.9.content_shape();
        let acc = add_bbox(acc, &s9);
        shape_of_boxes(acc)
    }
}

/// The shapes of the members of a sequence, in order.
pub open spec fn member_shapes<T: IntrinsicShape>(items: Seq<T>) -> Seq<ContentShape> {
    items.map_values(|t: T| t.shape())
}

/// The content shape of a slice: the rectangle bounding its members' shapes.
pub fn slice_content_shape<T: IntrinsicShape>(items: &[T]) -> (r: ContentShape)
    requires
        forall|i: int| 0 <= i < items@.len() ==> (#[trigger] items@[i]).shape_ok(),
        fold_bbox_ok(member_shapes(items@)),
    ensures
        r == boxes_shape(fold_bbox(member_shapes(items@))),
{
    let ghost shapes = member_shapes(items@);
    let mut acc: Option<Rectangle> = None;
    let n = items.len();
    let mut i: usize = 0;
    while i < n
        invariant
            n == items@.len(),
            0 <= i <= n,
            shapes == member_shapes(items@),
            forall|k: int| 0 <= k < items@.len() ==> (#[trigger] items@[k]).shape_ok(),
            fold_bbox_ok(shapes),
            acc == fold_bbox(shapes.take(i as int)),
        decreases n - i,
    {
        proof {
            lemma_fold_ok_prefix(shapes, (i + 1) as int);
            assert(shapes.take(i + 1).drop_last() =~= shapes.take(i as int));
        }
        let s = items[i].content_shape();
        acc = add_bbox(acc, &s);
        i = i + 1;
    }
    assert(shapes.take(n as int) =~= shapes);
    shape_of_boxes(acc)
}

proof fn lemma_fold_ok_prefix(shapes: Seq<ContentShape>, k: int)
    requires
        fold_bbox_ok(shapes),
        0 <= k <= shapes.len(),
    ensures
        fold_bbox_ok(shapes.take(k)),
    decreases shapes.len() - k,
{
    if k < shapes.len() {
        lemma_fold_ok_prefix(shapes, k + 1);
        assert(shapes.take(k + 1).drop_last() =~= shapes.take(k));
    } else {
        assert(shapes.take(k) =~= shapes);
    }
}

impl<T: IntrinsicShape, const N: usize> IntrinsicShape for [T; N] {
    open spec fn shape_ok(&self) -> bool {
        &&& forall|i: int| 0 <= i < self@.len() ==> (#[trigger] self@[i]).shape_ok()
        &&& fold_bbox_ok(member_shapes(self@))
    }

    open spec fn shape(&self) -> ContentShape {
        boxes_shape(fold_bbox(member_shapes(self@)))
    }

    fn content_shape(&self) -> (r: ContentShape) {
        slice_content_shape(self.as_slice())
    }
}

/// Whether every member that has a bounding box has a regular one.
pub open spec fn members_regular(members: Seq<ContentShape>) -> bool {
    forall|i: int|
        0 <= i < members.len() && (#[trigger] members[i]).spec_bounding_box() is Some
            ==> members[i].spec_bounding_box()->0.is_regular()
}

/// Whether `c` encloses the bounding box of every member that has one.
pub open spec fn encloses_members(c: Rectangle, members: Seq<ContentShape>) -> bool {
    forall|i: int|
        0 <= i < members.len() && (#[trigger] members[i]).spec_bounding_box() is Some ==> c.encloses(
            members[i].spec_bounding_box()->0,
        )
}

/// Whether `shape` is what a collection of `members` should report: empty
/// exactly when no member has a shape, and otherwise a rectangle that
/// encloses every member's bounding box and lies inside every rectangle
/// that does (among rectangles whose edges fit).
pub open spec fn bounds_members(shape: ContentShape, members: Seq<ContentShape>) -> bool {
    &&& (shape is Empty) == (forall|i: int|
        0 <= i < members.len() ==> (#[trigger] members[i]).spec_bounding_box() is None)
    &&& (shape is Empty || shape is Rectangle)
    &&& shape matches ContentShape::Rectangle(b) ==> {
        &&& b.is_regular()
        &&& encloses_members(b, members)
        &&& forall|c: Rectangle| c.is_regular() && #[trigger] encloses_members(c, members) ==> c.encloses(b)
    }
}

/// Folding the members' bounding boxes gives nothing exactly when no member
/// has one, and otherwise the least rectangle enclosing all of them.
pub proof fn lemma_fold_bbox_bounds(shapes: Seq<ContentShape>)
    requires
        fold_bbox_ok(shapes),
        members_regular(shapes),
    ensures
        bounds_members(boxes_shape(fold_bbox(shapes)), shapes),
    decreases shapes.len(),
{
    if shapes.len() > 0 {
        let init = shapes.drop_last();
        let last = shapes.last();
        let n = shapes.len() - 1;
        assert forall|i: int| 0 <= i < n implies shapes[i] == #[trigger] init[i] by {}
        assert(members_regular(init)) by {
            assert forall|i: int|
                0 <= i < init.len() && (#[trigger] init[i]).spec_bounding_box() is Some
                    implies init[i].spec_bounding_box()->0.is_regular() by {
                assert(shapes[i] == init[i]);
            }
        }
        lemma_fold_bbox_bounds(init);
        assert(shapes[n] == last);
        match (fold_bbox(init), last.spec_bounding_box()) {
            (Some(a), Some(m)) => {
                lemma_union_covers(a, m);
                let u = a.spec_union(m);
                assert forall|i: int|
                    0 <= i < shapes.len() && (#[trigger] shapes[i]).spec_bounding_box() is Some implies u.encloses(
                        shapes[i].spec_bounding_box()->0,
                    ) by {
                    if i < n {
                        assert(init[i] == shapes[i]);
                        assert(a.encloses(init[i].spec_bounding_box()->0));
                    }
                }
                assert forall|c: Rectangle| c.is_regular() && #[trigger] encloses_members(c, shapes) implies c.encloses(u) by {
                    assert forall|i: int|
                        0 <= i < init.len() && (#[trigger] init[i]).spec_bounding_box() is Some implies c.encloses(
                            init[i].spec_bounding_box()->0,
                        ) by {
                        assert(shapes[i] == init[i]);
                    }
                    assert(encloses_members(c, init));
                    lemma_union_least(a, m, c);
                }
            },
            (None, Some(m)) => {
                assert forall|i: int|
                    0 <= i < shapes.len() && (#[trigger] shapes[i]).spec_bounding_box() is Some implies m.encloses(
                        shapes[i].spec_bounding_box()->0,
                    ) by {
                    if i < n {
                        assert(init[i] == shapes[i]);
                    }
                }
                assert forall|c: Rectangle| c.is_regular() && #[trigger] encloses_members(c, shapes) implies c.encloses(m) by {
                    assert(shapes[n] == last);
                }
            },
            (Some(a), None) => {
                assert forall|i: int|
                    0 <= i < shapes.len() && (#[trigger] shapes[i]).spec_bounding_box() is Some implies a.encloses(
                        shapes[i].spec_bounding_box()->0,
                    ) by {
                    if i < n {
                        assert(init[i] == shapes[i]);
                    }
                }
                assert forall|c: Rectangle| c.is_regular() && #[trigger] encloses_members(c, shapes) implies c.encloses(a) by {
                    assert forall|i: int|
                        0 <= i < init.len() && (#[trigger] init[i]).spec_bounding_box() is Some implies c.encloses(
                            init[i].spec_bounding_box()->0,
                        ) by {
                        assert(shapes[i] == init[i]);
                    }
                    assert(encloses_members(c, init));
                }
            },
            (None, None) => {
                assert forall|i: int| 0 <= i < shapes.len() implies (#[trigger] shapes[i]).spec_bounding_box() is None by {
                    if i < n {
                        assert(init[i] == shapes[i]);
                    }
                }
            },
        }
    } else {
        assert(fold_bbox(shapes) is None);
    }
}

/// A collection of 2 members reports as its content shape the least
/// rectangle enclosing the bounding box of every member that has one, and
/// nothing when no member has one.
pub proof fn lemma_pair_shape_bounds_members<T0: IntrinsicShape, T1: IntrinsicShape>(t: (T0, T1))
    requires
        t.shape_ok(),
        members_regular(seq![t.0.shape(), t.1.shape()]),
    ensures
        bounds_members(t.shape(), seq![t.0.shape(), t.1.shape()]),
{
    lemma_fold_bbox_bounds(seq![t.0.shape(), t.1.shape()]);
}

/// Joining a collection of 2 members joins each member with the source's
/// member in the same place.
pub proof fn lemma_pair_joins_each_member<T0: AnimatedJoin, T1: AnimatedJoin>(
    target: (T0, T1),
    source: (T0, T1),
    domain: AnimationDomain,
)
    ensures
        target.joined(source, domain).0 == target.0.joined(source.0, domain),
        target.joined(source, domain).1 == target.1.joined(source.1, domain),
        target.join_ok(source, domain) == (target.0.join_ok(source.0, domain) && target.1.join_ok(source.1, domain)),
{
}

/// A collection of 3 members reports as its content shape the least
/// rectangle enclosing the bounding box of every member that has one, and
/// nothing when no member has one.
pub proof fn lemma_triple_shape_bounds_members<T0: IntrinsicShape, T1: IntrinsicShape, T2: IntrinsicShape>(t: (T0, T1, T2))
    requires
        t.shape_ok(),
        members_regular(seq![t.0.shape(), t.1.shape(), t.2.shape()]),
    ensures
        bounds_members(t.shape(), seq![t.0.shape(), t.1.shape(), t.2.shape()]),
{
    lemma_fold_bbox_bounds(seq![t.0.shape(), t.1.shape(), t.2.shape()]);
}

/// Joining a collection of 3 members joins each member with the source's
/// member in the same place.
pub proof fn lemma_triple_joins_each_member<T0: AnimatedJoin, T1: AnimatedJoin, T2: AnimatedJoin>(
    target: (T0, T1, T2),
    source: (T0, T1, T2),
    domain: AnimationDomain,
)
    ensures
        target.joined(source, domain).0 == target.0.joined(source.0, domain),
        target.joined(source, domain).1 == target.1.joined(source.1, domain),
        target.joined(source, domain).2 == target.2.joined(source.2, domain),
        target.join_ok(source, domain) == (target.0.join_ok(source.0, domain) && target.1.join_ok(source.1, domain) && target.2.join_ok(source.2, domain)),
{
}

/// A collection of 4 members reports as its content shape the least
/// rectangle enclosing the bounding box of every member that has one, and
/// nothing when no member has one.
pub proof fn lemma_four_shape_bounds_members<T0: IntrinsicShape, T1: IntrinsicShape, T2: IntrinsicShape, T3: IntrinsicShape>(t: (T0, T1, T2, T3))
    requires
        t.shape_ok(),
        members_regular(seq![t.0.shape(), t.1.shape(), t.2.shape(), t.3.shape()]),
    ensures
        bounds_members(t.shape(), seq![t.0.shape(), t.1.shape(), t.2.shape(), t.3.shape()]),
{
    lemma_fold_bbox_bounds(seq![t.0.shape(), t.1.shape(), t.2.shape(), t.3.shape()]);
}

/// Joining a collection of 4 members joins each member with the source's
/// member in the same place.
pub proof fn lemma_four_joins_each_member<T0: AnimatedJoin, T1: AnimatedJoin, T2: AnimatedJoin, T3: AnimatedJoin>(
    target: (T0, T1, T2, T3),
    source: (T0, T1, T2, T3),
    domain: AnimationDomain,
)
    ensures
        target.joined(source, domain).0 == target.0.joined(source.0, domain),
        target.joined(source, domain).1 == target.1.joined(source.1, domain),
        target.joined(source, domain).2 == target.2.joined(source.2, domain),
        target.joined(source, domain).3 == target.3.joined(source.3, domain),
        target.join_ok(source, domain) == (target.0.join_ok(source.0, domain) && target.1.join_ok(source.1, domain) && target.2.join_ok(source.2, domain) && target.3.join_ok(source.3, domain)),
{
}

/// A collection of 5 members reports as its content shape the least
/// rectangle enclosing the bounding box of every member that has one, and
/// nothing when no member has one.
pub proof fn lemma_five_shape_bounds_members<T0: IntrinsicShape, T1: IntrinsicShape, T2: IntrinsicShape, T3: IntrinsicShape, T4: IntrinsicShape>(t: (T0, T1, T2, T3, T4))
    requires
        t.shape_ok(),
        members_regular(seq![t.0.shape(), t.1.shape(), t.2.shape(), t.3.shape(), t.4.shape()]),
    ensures
        bounds_members(t.shape(), seq![t.0.shape(), t.1.shape(), t.2.shape(), t.3.shape(), t.4.shape()]),
{
    lemma_fold_bbox_bounds(seq![t.0.shape(), t.1.shape(), t.2.shape(), t.3.shape(), t.4.shape()]);
}

/// Joining a collection of 5 members joins each member with the source's
/// member in the same place.
pub proof fn lemma_five_joins_each_member<T0: AnimatedJoin, T1: AnimatedJoin, T2: AnimatedJoin, T3: AnimatedJoin, T4: AnimatedJoin>(
    target: (T0, T1, T2, T3, T4),
    source: (T0, T1, T2, T3, T4),
    domain: AnimationDomain,
)
    ensures
        target.joined(source, domain).0 == target.0.joined(source.0, domain),
        target.joined(source, domain).1 == target.1.joined(source.1, domain),
        target.joined(source, domain).2 == target.2.joined(source.2, domain),
        target.joined(source, domain).3 == target.3.joined(source.3, domain),
        target.joined(source, domain).4 == target.4.joined(source.4, domain),
        target.join_ok(source, domain) == (target.0.join_ok(source.0, domain) && target.1.join_ok(source.1, domain) && target.2.join_ok(source.2, domain) && target.3.join_ok(source.3, domain) && target.4.join_ok(source.4, domain)),
{
}

/// A collection of 6 members reports as its content shape the least
/// rectangle enclosing the bounding box of every member that has one, and
/// nothing when no member has one.
pub proof fn lemma_six_shape_bounds_members<T0: IntrinsicShape, T1: IntrinsicShape, T2: IntrinsicShape, T3: IntrinsicShape, T4: IntrinsicShape, T5: IntrinsicShape>(t: (T0, T1, T2, T3, T4, T5))
    requires
        t.shape_ok(),
        members_regular(seq![t.0.shape(), t.1.shape(), t.2.shape(), t.3.shape(), t.4.shape(), t.5.shape()]),
    ensures
        bounds_members(t.shape(), seq![t.0.shape(), t.1.shape(), t.2.shape(), t.3.shape(), t.4.shape(), t.5.shape()]),
{
    lemma_fold_bbox_bounds(seq![t.0.shape(), t.1.shape(), t.2.shape(), t.3.shape(), t.4.shape(), t.5.shape()]);
}

/// Joining a collection of 6 members joins each member with the source's
/// member in the same place.
pub proof fn lemma_six_joins_each_member<T0: AnimatedJoin, T1: AnimatedJoin, T2: AnimatedJoin, T3: AnimatedJoin, T4: AnimatedJoin, T5: AnimatedJoin>(
    target: (T0, T1, T2, T3, T4, T5),
    source: (T0, T1, T2, T3, T4, T5),
    domain: AnimationDomain,
)
    ensures
        target.joined(source, domain).0 == target.0.joined(source.0, domain),
        target.joined(source, domain).1 == target.1.joined(source.1, domain),
        target.joined(source, domain).2 == target.2.joined(source.2, domain),
        target.joined(source, domain).3 == target.3.joined(source.3, domain),
        target.joined(source, domain).4 == target.4.joined(source.4, domain),
        target.joined(source, domain).5 == target.5.joined(source.5, domain),
        target.join_ok(source, domain) == (target.0.join_ok(source.0, domain) && target.1.join_ok(source.1, domain) && target.2.join_ok(source.2, domain) && target.3.join_ok(source.3, domain) && target.4.join_ok(source.4, domain) && target.5.join_ok(source.5, domain)),
{
}

/// A collection of 7 members reports as its content shape the least
/// rectangle enclosing the bounding box of every member that has one, and
/// nothing when no member has one.
pub proof fn lemma_seven_shape_bounds_members<T0: IntrinsicShape, T1: IntrinsicShape, T2: IntrinsicShape, T3: IntrinsicShape, T4: IntrinsicShape, T5: IntrinsicShape, T6: IntrinsicShape>(t: (T0, T1, T2, T3, T4, T5, T6))
    requires
        t.shape_ok(),
        members_regular(seq![t.0.shape(), t.1.shape(), t.2.shape(), t.3.shape(), t.4.shape(), t.5.shape(), t.6.shape()]),
    ensures
        bounds_members(t.shape(), seq![t.0.shape(), t.1.shape(), t.2.shape(), t.3.shape(), t.4.shape(), t.5.shape(), t.6.shape()]),
{
    lemma_fold_bbox_bounds(seq![t.0.shape(), t.1.shape(), t.2.shape(), t.3.shape(), t.4.shape(), t.5.shape(), t.6.shape()]);
}

/// Joining a collection of 7 members joins each member with the source's
/// member in the same place.
pub proof fn lemma_seven_joins_each_member<T0: AnimatedJoin, T1: AnimatedJoin, T2: AnimatedJoin, T3: AnimatedJoin, T4: AnimatedJoin, T5: AnimatedJoin, T6: AnimatedJoin>(
    target: (T0, T1, T2, T3, T4, T5, T6),
    source: (T0, T1, T2, T3, T4, T5, T6),
    domain: AnimationDomain,
)
    ensures
        target.joined(source, domain).0 == target.0.joined(source.0, domain),
        target.joined(source, domain).1 == target.1.joined(source.1, domain),
        target.joined(source, domain).2 == target.2.joined(source.2, domain),
        target.joined(source, domain).3 == target.3.joined(source.3, domain),
        target.joined(source, domain).4 == target.4.joined(source.4, domain),
        target.joined(source, domain).5 == target.5.joined(source.5, domain),
        target.joined(source, domain).6 == target.6.joined(source.6, domain),
        target.join_ok(source, domain) == (target.0.join_ok(source.0, domain) && target.1.join_ok(source.1, domain) && target.2.join_ok(source.2, domain) && target.3.join_ok(source.3, domain) && target.4.join_ok(source.4, domain) && target.5.join_ok(source.5, domain) && target.6.join_ok(source.6, domain)),
{
}

/// A collection of 8 members reports as its content shape the least
/// rectangle enclosing the bounding box of every member that has one, and
/// nothing when no member has one.
pub proof fn lemma_eight_shape_bounds_members<T0: IntrinsicShape, T1: IntrinsicShape, T2: IntrinsicShape, T3: IntrinsicShape, T4: IntrinsicShape, T5: IntrinsicShape, T6: IntrinsicShape, T7: IntrinsicShape>(t: (T0, T1, T2, T3, T4, T5, T6, T7))
    requires
        t.shape_ok(),
        members_regular(seq![t.0.shape(), t.1.shape(), t.2.shape(), t.3.shape(), t.4.shape(), t.5.shape(), t.6.shape(), t.7.shape()]),
    ensures
        bounds_members(t.shape(), seq![t.0.shape(), t.1.shape(), t.2.shape(), t.3.shape(), t.4.shape(), t.5.shape(), t.6.shape(), t.7.shape()]),
{
    lemma_fold_bbox_bounds(seq![t.0.shape(), t.1.shape(), t.2.shape(), t.3.shape(), t.4.shape(), t.5.shape(), t.6.shape(), t.7.shape()]);
}

/// Joining a collection of 8 members joins each member with the source's
/// member in the same place.
pub proof fn lemma_eight_joins_each_member<T0: AnimatedJoin, T1: AnimatedJoin, T2: AnimatedJoin, T3: AnimatedJoin, T4: AnimatedJoin, T5: AnimatedJoin, T6: AnimatedJoin, T7: AnimatedJoin>(
    target: (T0, T1, T2, T3, T4, T5, T6, T7),
    source: (T0, T1, T2, T3, T4, T5, T6, T7),
    domain: AnimationDomain,
)
    ensures
        target.joined(source, domain).0 == target.0.joined(source.0, domain),
        target.joined(source, domain).1 == target.1.joined(source.1, domain),
        target.joined(source, domain).2 == target.2.joined(source.2, domain),
        target.joined(source, domain).3 == target.3.joined(source.3, domain),
        target.joined(source, domain).4 == target.4.joined(source.4, domain),
        target.joined(source, domain).5 == target.5.joined(source.5, domain),
        target.joined(source, domain).6 == target.6.joined(source.6, domain),
        target.joined(source, domain).7 == target.7.joined(source.7, domain),
        target.join_ok(source, domain) == (target.0.join_ok(source.0, domain) && target.1.join_ok(source.1, domain) && target.2.join_ok(source.2, domain) && target.3.join_ok(source.3, domain) && target.4.join_ok(source.4, domain) && target.5.join_ok(source.5, domain) && target.6.join_ok(source.6, domain) && target.7.join_ok(source.7, domain)),
{
}

/// A collection of 9 members reports as its content shape the least
/// rectangle enclosing the bounding box of every member that has one, and
/// nothing when no member has one.
pub proof fn lemma_nine_shape_bounds_members<T0: IntrinsicShape, T1: IntrinsicShape, T2: IntrinsicShape, T3: IntrinsicShape, T4: IntrinsicShape, T5: IntrinsicShape, T6: IntrinsicShape, T7: IntrinsicShape, T8: IntrinsicShape>(t: (T0, T1, T2, T3, T4, T5, T6, T7, T8))
    requires
        t.shape_ok(),
        members_regular(seq![t.0.shape(), t.1.shape(), t.2.shape(), t.3.shape(), t.4.shape(), t.5.shape(), t.6.shape(), t.7.shape(), t.8.shape()]),
    ensures
        bounds_members(t.shape(), seq![t.0.shape(), t.1.shape(), t.2.shape(), t.3.shape(), t.4.shape(), t.5.shape(), t.6.shape(), t.7.shape(), t.8.shape()]),
{
    lemma_fold_bbox_bounds(seq![t.0.shape(), t.1.shape(), t.2.shape(), t.3.shape(), t.4.shape(), t.5.shape(), t.6.shape(), t.7.shape(), t.8.shape()]);
}

/// Joining a collection of 9 members joins each member with the source's
/// member in the same place.
pub proof fn lemma_nine_joins_each_member<T0: AnimatedJoin, T1: AnimatedJoin, T2: AnimatedJoin, T3: AnimatedJoin, T4: AnimatedJoin, T5: AnimatedJoin, T6: AnimatedJoin, T7: AnimatedJoin, T8: AnimatedJoin>(
    target: (T0, T1, T2, T3, T4, T5, T6, T7, T8),
    source: (T0, T1, T2, T3, T4, T5, T6, T7, T8),
    domain: AnimationDomain,
)
    ensures
        target.joined(source, domain).0 == target.0.joined(source.0, domain),
        target.joined(source, domain).1 == target.1.joined(source.1, domain),
        target.joined(source, domain).2 == target.2.joined(source.2, domain),
        target.joined(source, domain).3 == target.3.joined(source.3, domain),
        target.joined(source, domain).4 == target.4.joined(source.4, domain),
        target.joined(source, domain).5 == target.5.joined(source.5, domain),
        target.joined(source, domain).6 == target.6.joined(source.6, domain),
        target.joined(source, domain).7 == target.7.joined(source.7, domain),
        target.joined(source, domain).8 == target.8.joined(source.8, domain),
        target.join_ok(source, domain) == (target.0.join_ok(source.0, domain) && target.1.join_ok(source.1, domain) && target.2.join_ok(source.2, domain) && target.3.join_ok(source.3, domain) && target.4.join_ok(source.4, domain) && target.5.join_ok(source.5, domain) && target.6.join_ok(source.6, domain) && target.7.join_ok(source.7, domain) && target.8.join_ok(source.8, domain)),
{
}

/// A collection of 10 members reports as its content shape the least
/// rectangle enclosing the bounding box of every member that has one, and
/// nothing when no member has one.
pub proof fn lemma_ten_shape_bounds_members<T0: IntrinsicShape, T1: IntrinsicShape, T2: IntrinsicShape, T3: IntrinsicShape, T4: IntrinsicShape, T5: IntrinsicShape, T6: IntrinsicShape, T7: IntrinsicShape, T8: IntrinsicShape, T9: IntrinsicShape>(t: (T0, T1, T2, T3, T4, T5, T6, T7, T8, T9))
    requires
        t.shape_ok(),
        members_regular(seq![t.0.shape(), t.1.shape(), t.2.shape(), t.3.shape(), t.4.shape(), t.5.shape(), t.6.shape(), t.7.shape(), t.8.shape(), t.9.shape()]),
    ensures
        bounds_members(t.shape(), seq![t.0.shape(), t.1.shape(), t.2.shape(), t.3.shape(), t.4.shape(), t.5.shape(), t.6.shape(), t.7.shape(), t.8.shape(), t.9.shape()]),
{
    lemma_fold_bbox_bounds(seq![t.0.shape(), t.1.shape(), t.2.shape(), t.3.shape(), t.4.shape(), t.5.shape(), t.6.shape(), t.7.shape(), t.8.shape(), t.9.shape()]);
}

/// Joining a collection of 10 members joins each member with the source's
/// member in the same place.
pub proof fn lemma_ten_joins_each_member<T0: AnimatedJoin, T1: AnimatedJoin, T2: AnimatedJoin, T3: AnimatedJoin, T4: AnimatedJoin, T5: AnimatedJoin, T6: AnimatedJoin, T7: AnimatedJoin, T8: AnimatedJoin, T9: AnimatedJoin>(
    target: (T0, T1, T2, T3, T4, T5, T6, T7, T8, T9),
    source: (T0, T1, T2, T3, T4, T5, T6, T7, T8, T9),
    domain: AnimationDomain,
)
    ensures
        target.joined(source, domain).0 == target.0.joined(source.0, domain),
        target.joined(source, domain).1 == target.1.joined(source.1, domain),
        target.joined(source, domain).2 == target.2.joined(source.2, domain),
        target.joined(source, domain).3 == target.3.joined(source.3, domain),
        target.joined(source, domain).4 == target.4.joined(source.4, domain),
        target.joined(source, domain).5 == target.5.joined(source.5, domain),
        target.joined(source, domain).6 == target.6.joined(source.6, domain),
        target.joined(source, domain).7 == target.7.joined(source.7, domain),
        target.joined(source, domain).8 == target.8.joined(source.8, domain),
        target.joined(source, domain).9 == target.9.joined(source.9, domain),
        target.join_ok(source, domain) == (target.0.join_ok(source.0, domain) && target.1.join_ok(source.1, domain) && target.2.join_ok(source.2, domain) && target.3.join_ok(source.3, domain) && target.4.join_ok(source.4, domain) && target.5.join_ok(source.5, domain) && target.6.join_ok(source.6, domain) && target.7.join_ok(source.7, domain) && target.8.join_ok(source.8, domain) && target.9.join_ok(source.9, domain)),
{
}

/// An array reports as its content shape the least rectangle enclosing the
/// bounding box of every element that has one, and nothing when no element
/// has one.
pub proof fn lemma_array_shape_bounds_members<T: IntrinsicShape, const N: usize>(items: [T; N])
    requires
        items.shape_ok(),
        members_regular(Seq::new(items@.len(), |i: int| items@[i].shape())),
    ensures
        bounds_members(items.shape(), Seq::new(items@.len(), |i: int| items@[i].shape())),
{
    assert(member_shapes(items@) =~= Seq::new(items@.len(), |i: int| items@[i].shape()));
    lemma_fold_bbox_bounds(member_shapes(items@));
}

} // verus!
