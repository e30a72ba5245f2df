//! A fixed-capacity bounding-volume hierarchy of rectangles, held in a fixed
//! array, used to track damaged and drawn regions of the screen.
use vstd::prelude::*;

use crate::primitives::geometry::rectangle::{
    lemma_encloses_antisymmetric, lemma_encloses_transitive, lemma_union_covers, lemma_union_inside,
    lemma_union_least, Rectangle,
};
use crate::primitives::point::Point;
use crate::primitives::size::Size;

verus! {

/// The index that stands for "no node".
pub const NULL_NODE: u16 = 65535u16;

/// A slot of the tree: a leaf holds an inserted rectangle, an internal node
/// the bounds of its two children, and a free slot links to the next free
/// slot through `left`.
#[derive(Clone, Copy)]
struct Node {
    rect: Rectangle,
    left: u16,
    right: u16,
    parent: u16,
}

/// A bounding-volume hierarchy over at most `CAP` slots.
///
/// Every inserted rectangle is a leaf; two leaves take three slots, as each
/// insertion into a non-empty tree also adds an internal node that bounds the
/// new leaf and the leaf it was paired with.
pub struct StaticAABBTree<const CAP: usize> {
    nodes: [Node; CAP],
    root: u16,
    free_head: u16,
    count: usize,
    /// The slots that hold a leaf or an internal node.
    used: Ghost<Set<int>>,
    /// The free slots, in the order of the free list.
    free_list: Ghost<Seq<int>>,
    /// A rank that is larger at every internal node than at its children.
    down: Ghost<Seq<int>>,
    /// A rank that is larger at every child than at its parent.
    up: Ghost<Seq<int>>,
}

impl<const CAP: usize> StaticAABBTree<CAP> {
    /// The parent slot of `i`, or `NULL_NODE` for `NULL_NODE` itself.
    closed spec fn parent_of(&self, i: int) -> int {
        if 0 <= i < CAP { self.nodes@[i].parent as int } else { NULL_NODE as int }
    }

    closed spec fn is_leaf_slot(&self, i: int) -> bool {
        self.used@.contains(i) && self.nodes@[i].left == NULL_NODE
    }

    /// The free-list part of the invariant.
    #[verifier::opaque]
    closed spec fn free_list_wf(&self) -> bool {
        let fl = self.free_list@;
        &&& fl.no_duplicates()
        &&& forall|k: int| 0 <= k < fl.len() ==> 0 <= #[trigger] fl[k] < CAP
        &&& forall|k: int| 0 <= k < fl.len() ==> !self.used@.contains(#[trigger] fl[k])
        &&& forall|i: int| 0 <= i < CAP ==> self.used@.contains(i) || fl.contains(i)
        &&& forall|i: int| #[trigger] self.used@.contains(i) ==> 0 <= i < CAP
        &&& self.free_head as int == (if fl.len() == 0 { NULL_NODE as int } else { fl[0] })
        &&& forall|k: int|
            0 <= k < fl.len() ==> self.nodes@[#[trigger] fl[k]].left as int == (if k + 1 < fl.len() {
                fl[k + 1]
            } else {
                NULL_NODE as int
            })
    }

    /// The shape of one used slot: leaf or internal with two distinct
    /// children that point back at it, ranks ordered along every edge, and a
    /// parent that lists it as a child unless it is the root.
    #[verifier::opaque]
    closed spec fn slot_wf(&self, i: int) -> bool {
        let n = self.nodes@[i];
        &&& (n.left == NULL_NODE) == (n.right == NULL_NODE)
        &&& n.left != NULL_NODE ==> {
            &&& self.used@.contains(n.left as int)
            &&& self.used@.contains(n.right as int)
            &&& n.left != n.right
            &&& self.nodes@[n.left as int].parent as int == i
            &&& self.nodes@[n.right as int].parent as int == i
            &&& self.down@[n.left as int] < self.down@[i]
            &&& self.down@[n.right as int] < self.down@[i]
            &&& self.up@[n.left as int] > self.up@[i]
            &&& self.up@[n.right as int] > self.up@[i]
        }
        &&& i != self.root ==> {
            &&& n.parent != NULL_NODE
            &&& self.used@.contains(n.parent as int)
            &&& (self.nodes@[n.parent as int].left as int == i || self.nodes@[n.parent as int].right
                as int == i)
        }
        &&& i == self.root ==> n.parent == NULL_NODE
        &&& self.down@[i] >= 0
        &&& self.up@[i] >= 0
        &&& n.rect.is_regular()
    }

    /// An internal slot holds exactly the union of its children's bounds,
    /// so it encloses both of them.
    #[verifier::opaque]
    closed spec fn bounds_children(&self, i: int) -> bool {
        let n = self.nodes@[i];
        n.left != NULL_NODE ==> {
            &&& self.unites_children(i)
            &&& n.rect.encloses(self.nodes@[n.left as int].rect)
            &&& n.rect.encloses(self.nodes@[n.right as int].rect)
        }
    }

    /// The bounds of a slot are the union of its children's.
    #[verifier::opaque]
    closed spec fn unites_children(&self, i: int) -> bool {
        let n = self.nodes@[i];
        n.rect == self.nodes@[n.left as int].rect.spec_union(self.nodes@[n.right as int].rect)
    }

    /// The slot counts: the used slots and the free list share the `CAP`
    /// slots, and `n` leaves take `2n - 1` used slots.
    #[verifier::opaque]
    closed spec fn size_wf(&self) -> bool {
        &&& self.used@.finite()
        &&& self.free_list@.len() + self.used@.len() == CAP
        &&& self.used@.len() == (if self.count == 0 { 0 } else { 2 * self.count - 1 })
    }

    /// Everything of the invariant except that internal slots bound their children.
    closed spec fn shape_wf(&self) -> bool {
        &&& CAP <= NULL_NODE
        &&& self.nodes@.len() == CAP
        &&& self.down@.len() == CAP
        &&& self.up@.len() == CAP
        &&& self.free_list_wf()
        &&& (self.root == NULL_NODE) == (self.used@ =~= Set::<int>::empty())
        &&& self.root != NULL_NODE ==> self.used@.contains(self.root as int)
        &&& forall|i: int| #[trigger] self.used@.contains(i) ==> self.slot_wf(i)
        &&& self.count as int == self.leaves().dom().len()
        &&& self.size_wf()
    }

    /// The invariant of the tree.
    pub closed spec fn wf(&self) -> bool {
        &&& self.shape_wf()
        &&& forall|i: int| #[trigger] self.used@.contains(i) ==> self.bounds_children(i)
    }

    /// The inserted rectangles, by the slot that holds each.
    pub closed spec fn leaves(&self) -> Map<int, Rectangle> {
        Map::new(|i: int| self.is_leaf_slot(i), |i: int| self.nodes@[i].rect)
    }

    /// The number of free slots.
    pub closed spec fn free_slots(&self) -> nat {
        self.free_list@.len()
    }

    /// The rectangle bounding every leaf, when the tree is not empty.
    pub closed spec fn root_rect(&self) -> Option<Rectangle> {
        if self.root == NULL_NODE { None } else { Some(self.nodes@[self.root as int].rect) }
    }

    proof fn lemma_leaves_finite(&self)
        requires
            self.shape_wf(),
        ensures
            self.leaves().dom().finite(),
            self.leaves().dom().subset_of(self.used@),
            self.leaves().dom().len() <= CAP,
    {
        reveal(StaticAABBTree::free_list_wf);
        reveal(StaticAABBTree::slot_wf);
        reveal(StaticAABBTree::bounds_children);
        let r = Set::new(|i: int| 0 <= i < CAP);
        assert(r =~= vstd::set_lib::set_int_range(0, CAP as int));
        vstd::set_lib::lemma_int_range(0, CAP as int);
        assert(self.leaves().dom().subset_of(r));
        vstd::set_lib::lemma_len_subset(self.leaves().dom(), r);
    }
}

impl<const CAP: usize> StaticAABBTree<CAP> {
    /// Creates an empty tree, with every slot on the free list.
    pub fn new() -> (r: Self)
        requires
            CAP <= NULL_NODE,
        ensures
            r.wf(),
            r.leaves() =~= Map::<int, Rectangle>::empty(),
            r.free_slots() == CAP,
            r.root_rect() is None,
    {
        proof {
            reveal(StaticAABBTree::free_list_wf);
            reveal(StaticAABBTree::slot_wf);
            reveal(StaticAABBTree::bounds_children);
            reveal(StaticAABBTree::size_wf);
        }
        let empty = Node {
            rect: Rectangle::from_bounds(0, 0, 0, 0),
            left: NULL_NODE,
            right: NULL_NODE,
            parent: NULL_NODE,
        };
        let mut nodes = vstd::array::array_fill_for_copy_types::<Node, CAP>(empty);
        let mut free_head = NULL_NODE;
        let ghost fl = Seq::new(CAP as nat, |i: int| i);
        if CAP > 0 {
            free_head = 0;
            let mut i: usize = 0;
            while i < CAP - 1
                invariant
                    CAP > 0,
                    CAP <= NULL_NODE,
                    0 <= i <= CAP - 1,
                    nodes@.len() == CAP,
                    forall|k: int| 0 <= k < i ==> nodes@[k].left as int == k + 1,
                    forall|k: int| i <= k < CAP ==> nodes@[k].left == NULL_NODE,
                decreases CAP - 1 - i,
            {
                nodes[i].left = (i + 1) as u16;
                i += 1;
            }
            nodes[CAP - 1].left = NULL_NODE;
        }
        let r = Self {
            nodes,
            root: NULL_NODE,
            free_head,
            count: 0,
            used: Ghost(Set::empty()),
            free_list: Ghost(fl),
            down: Ghost(Seq::new(CAP as nat, |i: int| 0)),
            up: Ghost(Seq::new(CAP as nat, |i: int| 0)),
        };
        proof {
            assert(fl.no_duplicates());
            assert forall|i: int| 0 <= i < CAP implies r.used@.contains(i) || fl.contains(i) by {
                assert(fl[i] == i);
            }
            assert(r.leaves() =~= Map::<int, Rectangle>::empty());
        }
        r
    }

    /// The number of inserted rectangles.
    pub fn len(&self) -> (r: usize)
        requires
            self.wf(),
        ensures
            r == self.leaves().dom().len(),
    {
        self.count
    }

    pub fn is_empty(&self) -> (r: bool)
        requires
            self.wf(),
        ensures
            r == (self.leaves().dom().len() == 0),
    {
        self.count == 0
    }
}


impl<const CAP: usize> StaticAABBTree<CAP> {
    /// Everything but the rectangles of internal slots stays as it was.
    closed spec fn same_shape(&self, other: &Self) -> bool {
        &&& self.root == other.root
        &&& self.free_head == other.free_head
        &&& self.count == other.count
        &&& self.used@ == other.used@
        &&& self.free_list@ == other.free_list@
        &&& self.down@ == other.down@
        &&& self.up@ == other.up@
        &&& self.nodes@.len() == other.nodes@.len()
        &&& forall|i: int|
            0 <= i < self.nodes@.len() ==> {
                &&& (#[trigger] self.nodes@[i]).left == other.nodes@[i].left
                &&& self.nodes@[i].right == other.nodes@[i].right
                &&& self.nodes@[i].parent == other.nodes@[i].parent
                &&& (!other.used@.contains(i) || other.nodes@[i].left == NULL_NODE)
                    ==> self.nodes@[i].rect == other.nodes@[i].rect
            }
    }

    /// Every used slot lies within `bound`.
    closed spec fn within(&self, bound: Rectangle) -> bool {
        forall|i: int| #[trigger] self.used@.contains(i) ==> bound.encloses(self.nodes@[i].rect)
    }

    proof fn lemma_same_shape_keeps(&self, other: &Self)
        requires
            other.shape_wf(),
            self.same_shape(other),
            forall|i: int| #[trigger] self.used@.contains(i) ==> self.nodes@[i].rect.is_regular(),
        ensures
            self.shape_wf(),
            self.leaves() == other.leaves(),
    {
        reveal(StaticAABBTree::free_list_wf);
        reveal(StaticAABBTree::slot_wf);
        reveal(StaticAABBTree::bounds_children);
        reveal(StaticAABBTree::size_wf);
        assert forall|i: int| #[trigger] self.used@.contains(i) implies self.slot_wf(i) by {
            assert(other.slot_wf(i));
            let n = other.nodes@[i];
            if n.left != NULL_NODE {
                assert(self.nodes@[n.left as int].parent == other.nodes@[n.left as int].parent);
                assert(self.nodes@[n.right as int].parent == other.nodes@[n.right as int].parent);
            }
            if i != self.root {
                assert(self.nodes@[n.parent as int].left == other.nodes@[n.parent as int].left);
                assert(self.nodes@[n.parent as int].right == other.nodes@[n.parent as int].right);
            }
        }
        let fl = self.free_list@;
        assert forall|k: int| 0 <= k < fl.len() implies self.nodes@[#[trigger] fl[k]].left as int == (if k + 1 < fl.len() {
            fl[k + 1]
        } else {
            NULL_NODE as int
        }) by {
            assert(other.free_list_wf());
        }
        assert(self.leaves() =~= other.leaves());
    }

    /// Recomputes the bounds of `node_idx` and of every slot above it.
    ///
    /// Before the call, only `node_idx` and its parent may fail to bound
    /// their children; afterwards, every internal slot does.
    fn fix_upwards(&mut self, node_idx: u16, Ghost(bound): Ghost<Rectangle>)
        requires
            old(self).shape_wf(),
            node_idx == NULL_NODE || old(self).used@.contains(node_idx as int),
            forall|i: int|
                #[trigger] old(self).used@.contains(i) ==> old(self).bounds_children(i) || i
                    == node_idx || i == old(self).parent_of(node_idx as int),
            bound.is_regular(),
            old(self).within(bound),
        ensures
            final(self).wf(),
            final(self).same_shape(&*old(self)),
            final(self).within(bound),
            final(self).leaves() == old(self).leaves(),
    {
        proof {
            reveal(StaticAABBTree::free_list_wf);
            reveal(StaticAABBTree::slot_wf);
            reveal(StaticAABBTree::bounds_children);
        }
        let ghost start = *self;
        let mut cur = node_idx;
        while cur != NULL_NODE
            invariant
                start.shape_wf(),
                self.same_shape(&start),
                cur == NULL_NODE || self.used@.contains(cur as int),
                forall|i: int|
                    #[trigger] self.used@.contains(i) ==> self.bounds_children(i) || i == cur || i
                        == self.parent_of(cur as int),
                forall|i: int| #[trigger] self.used@.contains(i) ==> self.nodes@[i].rect.is_regular(),
                bound.is_regular(),
                self.within(bound),
            decreases (if cur == NULL_NODE { 0 } else { self.up@[cur as int] + 1 }),
        {
            proof {
                reveal(StaticAABBTree::free_list_wf);
                reveal(StaticAABBTree::slot_wf);
                reveal(StaticAABBTree::bounds_children);
                self.lemma_same_shape_keeps(&start);
                assert(self.slot_wf(cur as int));
            }
            let left = self.nodes[cur as usize].left;
            let right = self.nodes[cur as usize].right;
            let ghost before = *self;
            if left != NULL_NODE && right != NULL_NODE {
                proof {
                    lemma_union_least(
                        self.nodes@[left as int].rect,
                        self.nodes@[right as int].rect,
                        bound,
                    );
                    lemma_union_covers(self.nodes@[left as int].rect, self.nodes@[right as int].rect);
                }
                let rect = self.nodes[left as usize].rect.union(&self.nodes[right as usize].rect);
                self.nodes[cur as usize].rect = rect;
            }
            proof {
                if left != NULL_NODE {
                    assert(self.unites_children(cur as int)) by {
                        reveal(StaticAABBTree::unites_children);
                    }
                }
                assert forall|i: int| #[trigger] self.used@.contains(i) implies self.bounds_children(i)
                    || i == self.parent_of(cur as int) by {
                    if i != cur as int {
                        assert(before.bounds_children(i) || i == before.parent_of(cur as int));
                        let n = self.nodes@[i];
                        if n.left != NULL_NODE && i != self.parent_of(cur as int) {
                            assert(before.slot_wf(i));
                            assert(n.left != cur && n.right != cur);
                            assert(before.unites_children(i));
                            assert(self.unites_children(i)) by {
                                reveal(StaticAABBTree::unites_children);
                            }
                        }
                    }
                }
            }
            cur = self.nodes[cur as usize].parent;
        }
        proof {
            self.lemma_same_shape_keeps(&start);
        }
    }
}


/// Rectangles that enclose more also have at least as much area.
pub proof fn lemma_area_monotone(small: Rectangle, large: Rectangle)
    requires
        small.is_regular(),
        large.is_regular(),
        large.encloses(small),
    ensures
        small.size.spec_area() <= large.size.spec_area(),
{
    let w1 = small.size.width as int;
    let h1 = small.size.height as int;
    let w2 = large.size.width as int;
    let h2 = large.size.height as int;
    assert(w1 <= w2);
    assert(h1 <= h2);
    assert(w1 * h1 <= w2 * h2) by (nonlinear_arith)
        requires 0 <= w1 <= w2, 0 <= h1 <= h2;
}

impl<const CAP: usize> StaticAABBTree<CAP> {
    /// The root bounds every used slot.
    proof fn lemma_root_encloses(&self, i: int)
        requires
            self.wf(),
            self.used@.contains(i),
        ensures
            self.root != NULL_NODE,
            self.nodes@[self.root as int].rect.encloses(self.nodes@[i].rect),
        decreases self.up@[i],
    {
        reveal(StaticAABBTree::free_list_wf);
        reveal(StaticAABBTree::slot_wf);
        reveal(StaticAABBTree::bounds_children);
        assert(self.slot_wf(i));
        if i != self.root {
            let p = self.nodes@[i].parent as int;
            assert(self.slot_wf(p));
            assert(self.bounds_children(p));
            self.lemma_root_encloses(p);
        }
    }

    /// Every used slot has a leaf below it.
    proof fn lemma_leaf_below(&self, i: int) -> (l: int)
        requires
            self.shape_wf(),
            self.used@.contains(i),
        ensures
            self.is_leaf_slot(l),
            self.in_sub(l, i),
        decreases self.down@[i],
    {
        self.lemma_slot(i);
        if self.nodes@[i].left == NULL_NODE {
            self.lemma_sub_refl(i);
            i
        } else {
            let c = self.nodes@[i].left as int;
            self.lemma_child_in_sub(i, c);
            let l = self.lemma_leaf_below(c);
            self.lemma_sub_trans(l, c, i);
            l
        }
    }

    /// The tree holds no rectangle exactly when it has no root.
    pub proof fn lemma_empty_iff_no_root(&self)
        requires
            self.wf(),
        ensures
            (self.leaves().dom().len() == 0) == (self.root_rect() is None),
    {
        reveal(StaticAABBTree::free_list_wf);
        reveal(StaticAABBTree::slot_wf);
        reveal(StaticAABBTree::bounds_children);
        self.lemma_leaves_finite();
        if self.root != NULL_NODE {
            let l = self.lemma_leaf_below(self.root as int);
            assert(self.leaves().dom().contains(l));
        } else {
            assert(self.leaves().dom() =~= Set::<int>::empty());
        }
    }

    /// With `n` rectangles a tree uses `2n - 1` of its slots (none when it
    /// is empty) and the rest are free, so it holds at most `(CAP + 1) / 2`
    /// rectangles.
    pub proof fn lemma_capacity(&self)
        requires
            self.wf(),
        ensures
            self.free_slots() + (if self.leaves().dom().len() == 0 {
                0
            } else {
                2 * self.leaves().dom().len() - 1
            }) == CAP,
            2 * self.leaves().dom().len() <= CAP + 1,
    {
        reveal(StaticAABBTree::size_wf);
    }

    /// The root's bounds are a regular rectangle enclosing every rectangle
    /// in the tree.
    pub proof fn lemma_root_bounds(&self)
        requires
            self.wf(),
        ensures
            self.root_rect() matches Some(b) ==> b.is_regular() && forall|k: int|
                #[trigger] self.leaves().dom().contains(k) ==> b.encloses(self.leaves()[k]),
    {
        if self.root != NULL_NODE {
            self.lemma_slot(self.root as int);
            let r = self.root as int;
            assert forall|k: int| #[trigger] self.leaves().dom().contains(k) implies self.nodes@[r].rect.encloses(
                self.leaves()[k],
            ) by {
                self.lemma_root_encloses(k);
            }
        }
    }

    /// A regular rectangle that encloses every leaf below `i` encloses the
    /// bounds of `i`.
    proof fn lemma_least_below(&self, i: int, b: Rectangle)
        requires
            self.wf(),
            self.used@.contains(i),
            b.is_regular(),
            forall|l: int| #[trigger] self.is_leaf_slot(l) && self.in_sub(l, i) ==> b.encloses(self.nodes@[l].rect),
        ensures
            b.encloses(self.nodes@[i].rect),
        decreases self.down@[i],
    {
        self.lemma_slot(i);
        if self.nodes@[i].left == NULL_NODE {
            self.lemma_sub_refl(i);
            assert(self.is_leaf_slot(i));
        } else {
            let n = self.nodes@[i];
            let c1 = n.left as int;
            let c2 = n.right as int;
            self.lemma_child_in_sub(i, c1);
            self.lemma_child_in_sub(i, c2);
            assert forall|l: int| #[trigger] self.is_leaf_slot(l) && self.in_sub(l, c1) implies b.encloses(
                self.nodes@[l].rect,
            ) by {
                self.lemma_sub_trans(l, c1, i);
            }
            assert forall|l: int| #[trigger] self.is_leaf_slot(l) && self.in_sub(l, c2) implies b.encloses(
                self.nodes@[l].rect,
            ) by {
                self.lemma_sub_trans(l, c2, i);
            }
            self.lemma_least_below(c1, b);
            self.lemma_least_below(c2, b);
            self.lemma_slot(c1);
            self.lemma_slot(c2);
            assert(self.unites_children(i)) by {
                reveal(StaticAABBTree::bounds_children);
                assert(self.bounds_children(i));
            }
            assert(n.rect == self.nodes@[c1].rect.spec_union(self.nodes@[c2].rect)) by {
                reveal(StaticAABBTree::unites_children);
            }
            lemma_union_least(self.nodes@[c1].rect, self.nodes@[c2].rect, b);
        }
    }

    /// The root's bounds are the least bounds of the tree: every regular
    /// rectangle that encloses every rectangle in the tree encloses them.
    pub proof fn lemma_root_least(&self, b: Rectangle)
        requires
            self.wf(),
            b.is_regular(),
            encloses_all(b, self.leaves()),
            self.root_rect() is Some,
        ensures
            b.encloses(self.root_rect()->0),
    {
        assert forall|l: int| #[trigger] self.is_leaf_slot(l) && self.in_sub(l, self.root as int) implies b.encloses(
            self.nodes@[l].rect,
        ) by {
            assert(self.leaves().dom().contains(l));
        }
        self.lemma_least_below(self.root as int, b);
    }

    /// The leaf that `insert` pairs `rect` with, looked for below slot `i`:
    /// from an internal slot go to the child whose bounds grow least to
    /// cover `rect`; on a tie to the child with less area, and to the
    /// second child when their areas are equal too.
    closed spec fn pairing_leaf(&self, i: int, rect: Rectangle) -> int
        decreases self.down@[i],
    {
        let n = self.nodes@[i];
        if n.left == NULL_NODE {
            i
        } else {
            let l = n.left as int;
            let r = n.right as int;
            let cost_l = growth(self.nodes@[l].rect, rect);
            let cost_r = growth(self.nodes@[r].rect, rect);
            let area_l = self.nodes@[l].rect.size.spec_area();
            let area_r = self.nodes@[r].rect.size.spec_area();
            let next = if cost_l < cost_r {
                l
            } else if cost_r < cost_l {
                r
            } else if area_l < area_r {
                l
            } else {
                r
            };
            if 0 <= self.down@[next] < self.down@[i] {
                self.pairing_leaf(next, rect)
            } else {
                i
            }
        }
    }

    /// The leaf that `insert` pairs `rect` with, looked for from the root.
    pub closed spec fn pairing_leaf_from_root(&self, rect: Rectangle) -> int {
        self.pairing_leaf(self.root as int, rect)
    }

    /// The slot that shares a parent with slot `k`.
    pub closed spec fn sibling(&self, k: int) -> int {
        let p = self.nodes@[self.nodes@[k].parent as int];
        if p.left as int == k { p.right as int } else { p.left as int }
    }

    /// Whether `rect` can be inserted without any bound overflowing.
    pub open spec fn can_insert(&self, rect: Rectangle) -> bool {
        &&& rect.is_regular()
        &&& match self.root_rect() {
            Some(bounds) => bounds.can_union(rect),
            None => true,
        }
    }

    fn is_leaf(&self, idx: u16) -> (r: bool)
        requires
            self.shape_wf(),
            self.used@.contains(idx as int),
        ensures
            r == (self.nodes@[idx as int].left == NULL_NODE),
    {
        proof {
            reveal(StaticAABBTree::free_list_wf);
            reveal(StaticAABBTree::slot_wf);
            reveal(StaticAABBTree::bounds_children);
        }
        proof {
            assert(self.slot_wf(idx as int));
        }
        let node = &self.nodes[idx as usize];
        node.left == NULL_NODE && node.right == NULL_NODE
    }

    /// Inserts a new rectangle.
    ///
    /// The first rectangle takes one free slot; every later one takes two,
    /// as it is paired under a new internal slot with the leaf whose bounds
    /// grow least. The root bounds become the union of the old ones and
    /// `rect`. Without enough free slots the tree is left as it is and an
    /// error is returned.
    pub fn insert(&mut self, rect: Rectangle) -> (r: Result<(), &'static str>)
        requires
            old(self).wf(),
            old(self).can_insert(rect),
        ensures
            final(self).wf(),
            r is Ok <==> old(self).free_slots() >= (if old(self).root_rect() is None { 1nat } else { 2nat }),
            r is Ok ==> exists|k: int|
                !old(self).leaves().dom().contains(k) && final(self).leaves() == old(self).leaves().insert(
                    k,
                    rect,
                ),
            r is Ok ==> final(self).free_slots() + (if old(self).root_rect() is None { 1nat } else { 2nat })
                == old(self).free_slots(),
            r matches Err(msg) ==> msg@ == "Tree is at maximum capacity"@ && final(self).leaves()
                == old(self).leaves() && final(self).free_slots() == old(self).free_slots(),
            r is Ok <==> CAP >= 2 * old(self).leaves().dom().len() + 1,
            r is Ok ==> final(self).root_rect() == Some(
                match old(self).root_rect() {
                    Some(o) => o.spec_union(rect),
                    None => rect,
                },
            ),
            r is Err ==> final(self).root_rect() == old(self).root_rect(),
            r is Ok && old(self).root_rect() is Some ==> exists|k: int|
                !old(self).leaves().dom().contains(k) && final(self).leaves() == old(self).leaves().insert(
                    k,
                    rect,
                ) && final(self).sibling(k) == old(self).pairing_leaf_from_root(rect)
                    && old(self).leaves().dom().contains(old(self).pairing_leaf_from_root(rect)),
    {
        proof {
            self.lemma_capacity();
        }
        proof {
            reveal(StaticAABBTree::free_list_wf);
            reveal(StaticAABBTree::slot_wf);
            reveal(StaticAABBTree::bounds_children);
        }
        proof {
            reveal_strlit("Tree is at maximum capacity");
            self.lemma_leaves_finite();
        }
        if self.root == NULL_NODE {
            if self.free_head == NULL_NODE {
                return Err("Tree is at maximum capacity");
            }
            let idx = self.free_head;
            let ghost fl = self.free_list@;
            proof {
                assert(fl[0] == idx);
                assert(self.leaves() =~= Map::<int, Rectangle>::empty());
            }
            self.free_head = self.nodes[idx as usize].left;
            self.nodes[idx as usize] = Node {
                rect,
                left: NULL_NODE,
                right: NULL_NODE,
                parent: NULL_NODE,
            };
            self.root = idx;
            self.count = 1;
            self.used = Ghost(Set::<int>::empty().insert(idx as int));
            self.free_list = Ghost(fl.drop_first());
            self.down = Ghost(self.down@.update(idx as int, 0));
            self.up = Ghost(self.up@.update(idx as int, 0));
            proof {
                assert(self.leaves() =~= Map::<int, Rectangle>::empty().insert(idx as int, rect));
                assert(self.leaves().dom() =~= Set::<int>::empty().insert(idx as int));
                assert(self.slot_wf(idx as int));
                let nfl = self.free_list@;
                assert forall|i: int| 0 <= i < CAP implies self.used@.contains(i) || nfl.contains(i) by {
                    if i != idx {
                        assert(fl.contains(i));
                        let k = choose|k: int| 0 <= k < fl.len() && fl[k] == i;
                        assert(k != 0);
                        assert(nfl[k - 1] == i);
                    }
                }
                assert forall|k: int| 0 <= k < nfl.len() implies self.nodes@[#[trigger] nfl[k]].left as int == (if k + 1 < nfl.len() {
                    nfl[k + 1]
                } else {
                    NULL_NODE as int
                }) by {
                    assert(nfl[k] == fl[k + 1]);
                    assert(fl[k + 1] != fl[0]);
                }
                assert(nfl.no_duplicates());
                assert(self.size_wf()) by {
                    reveal(StaticAABBTree::size_wf);
                    assert(old(self).size_wf());
                    assert(old(self).used@ =~= Set::<int>::empty());
                    assert(self.used@.len() == 1);
                }
            }
            return Ok(());
        }
        if self.free_head == NULL_NODE || self.nodes[self.free_head as usize].left == NULL_NODE {
            proof {
                let fl = self.free_list@;
                if fl.len() >= 2 {
                    assert(fl[0] != fl[1]);
                }
            }
            return Err("Tree is at maximum capacity");
        }
        let ghost root_rect = self.nodes@[self.root as int].rect;
        let ghost bound = root_rect.spec_union(rect);
        proof {
            lemma_union_covers(root_rect, rect);
            assert(self.slot_wf(self.root as int));
        }
        // 1. Find best leaf via minimal area expansion
        let mut curr = self.root;
        while !self.is_leaf(curr)
            invariant
                self.wf(),
                self.used@.contains(curr as int),
                self.root != NULL_NODE,
                root_rect == self.nodes@[self.root as int].rect,
                root_rect.can_union(rect),
                rect.is_regular(),
                *self == *old(self),
                self.pairing_leaf(curr as int, rect) == self.pairing_leaf(self.root as int, rect),
            decreases self.down@[curr as int],
        {
            proof {
                reveal(StaticAABBTree::free_list_wf);
                reveal(StaticAABBTree::slot_wf);
                reveal(StaticAABBTree::bounds_children);
                assert(self.slot_wf(curr as int));
            }
            let left = self.nodes[curr as usize].left;
            let right = self.nodes[curr as usize].right;
            proof {
                assert(self.slot_wf(left as int));
                assert(self.slot_wf(right as int));
                self.lemma_root_encloses(left as int);
                self.lemma_root_encloses(right as int);
                assert(self.slot_wf(self.root as int));
                let lr = self.nodes@[left as int].rect;
                let rr = self.nodes@[right as int].rect;
                lemma_union_inside(lr, root_rect, rect);
                lemma_union_inside(rr, root_rect, rect);
                lemma_union_covers(lr, rect);
                lemma_union_covers(rr, rect);
                lemma_area_monotone(lr, lr.spec_union(rect));
                lemma_area_monotone(rr, rr.spec_union(rect));
            }
            let area_left = self.nodes[left as usize].rect.area();
            let area_right = self.nodes[right as usize].rect.area();
            let cost_left = self.nodes[left as usize].rect.union(&rect).area() - area_left;
            let cost_right = self.nodes[right as usize].rect.union(&rect).area() - area_right;
            let ghost before = curr;
            if cost_left < cost_right {
                curr = left;
            } else if cost_right < cost_left {
                curr = right;
            } else {
                curr = if area_left < area_right { left } else { right };
            }
            proof {
                self.lemma_slot(before as int);
                assert(self.pairing_leaf(before as int, rect) == self.pairing_leaf(curr as int, rect));
            }
        }
        proof {
            self.lemma_slot(curr as int);
            assert(self.pairing_leaf(curr as int, rect) == curr as int);
            assert(self.leaves().dom().contains(curr as int));
        }
        proof {
            assert forall|i: int| #[trigger] self.used@.contains(i) implies bound.encloses(
                self.nodes@[i].rect,
            ) by {
                self.lemma_root_encloses(i);
            }
            let fl = self.free_list@;
            assert(fl.len() >= 2);
            assert(!self.leaves().dom().contains(fl[0]));
        }
        self.attach_leaf(curr, rect, Ghost(bound));
        proof {
            let b = self.root_rect()->0;
            self.lemma_root_bounds();
            assert forall|k: int| #[trigger] old(self).leaves().dom().contains(k) implies b.encloses(
                old(self).leaves()[k],
            ) by {
                assert(self.leaves().dom().contains(k));
            }
            assert(encloses_all(b, old(self).leaves()));
            old(self).lemma_root_least(b);
            lemma_union_least(root_rect, rect, b);
            lemma_encloses_antisymmetric(b, bound);
        }
        Ok(())
    }

    /// Pairs the leaf `curr` with a new leaf holding `rect` under a new
    /// internal slot, taking the two slots at the head of the free list.
    #[verifier::rlimit(100)]
    fn attach_leaf(&mut self, curr: u16, rect: Rectangle, Ghost(bound): Ghost<Rectangle>)
        requires
            old(self).wf(),
            old(self).is_leaf_slot(curr as int),
            old(self).free_list@.len() >= 2,
            rect.is_regular(),
            bound.is_regular(),
            bound.encloses(rect),
            old(self).within(bound),
        ensures
            final(self).wf(),
            final(self).leaves() == old(self).leaves().insert(old(self).free_list@[0], rect),
            !old(self).leaves().dom().contains(old(self).free_list@[0]),
            final(self).free_slots() + 2 == old(self).free_slots(),
            final(self).root_rect() matches Some(b) && b.is_regular() && b.encloses(rect)
                && bound.encloses(b),
            final(self).sibling(old(self).free_list@[0]) == curr as int,
    {
        let ghost old_self = *self;
        let ghost fl = self.free_list@;
        let ghost cd = self.down@[curr as int];
        let ghost cu = self.up@[curr as int];
        proof {
            assert({
                &&& fl[0] != fl[1]
                &&& 0 <= fl[0] < CAP
                &&& 0 <= fl[1] < CAP
                &&& self.free_head as int == fl[0]
                &&& self.nodes@[fl[0]].left as int == fl[1]
                &&& 0 <= curr < CAP
                &&& (self.nodes@[curr as int].parent == NULL_NODE || 0 <= self.nodes@[curr as int].parent < CAP)
                &&& self.nodes@[curr as int].rect.is_regular()
            }) by {
                reveal(StaticAABBTree::free_list_wf);
                reveal(StaticAABBTree::slot_wf);
                self.lemma_leaves_finite();
                assert(self.slot_wf(curr as int));
                if self.nodes@[curr as int].parent != NULL_NODE {
                    assert(self.used@.contains(self.nodes@[curr as int].parent as int));
                }
            }
        }
        let leaf_idx = self.free_head;
        let internal_idx = self.nodes[leaf_idx as usize].left;
        self.free_head = self.nodes[internal_idx as usize].left;

        let old_parent = self.nodes[curr as usize].parent;
        let old_rect = self.nodes[curr as usize].rect;
        proof {
            lemma_union_least(old_rect, rect, bound);
            lemma_union_covers(old_rect, rect);
        }
        self.nodes[leaf_idx as usize] = Node {
            rect,
            left: NULL_NODE,
            right: NULL_NODE,
            parent: internal_idx,
        };
        self.nodes[curr as usize].parent = internal_idx;
        self.nodes[internal_idx as usize] = Node {
            rect: old_rect.union(&rect),
            left: curr,
            right: leaf_idx,
            parent: old_parent,
        };
        if old_parent == NULL_NODE {
            self.root = internal_idx;
        } else {
            if self.nodes[old_parent as usize].left == curr {
                self.nodes[old_parent as usize].left = internal_idx;
            } else {
                self.nodes[old_parent as usize].right = internal_idx;
            }
        }
        proof {
            old_self.lemma_leaves_finite();
            assert(self.count == old_self.count);
            assert(old_parent != internal_idx && old_parent != leaf_idx) by {
                reveal(StaticAABBTree::free_list_wf);
                old_self.lemma_slot(curr as int);
                assert(old_self.free_list_wf());
                assert(!old_self.used@.contains(fl[0]) && !old_self.used@.contains(fl[1]));
            }
            assert(self.nodes@[internal_idx as int].left == curr);
            assert(self.nodes@[internal_idx as int].right == leaf_idx);
            assert(self.nodes@[leaf_idx as int].parent == internal_idx);
        }
        self.count = self.count + 1;
        let ghost li = leaf_idx as int;
        let ghost ii = internal_idx as int;
        self.used = Ghost(old_self.used@.insert(li).insert(ii));
        self.free_list = Ghost(fl.subrange(2, fl.len() as int));
        self.down = Ghost(
            Seq::new(
                CAP as nat,
                |i: int|
                    if i == ii {
                        cd + 1
                    } else if i == li {
                        0
                    } else if old_self.down@[i] > cd {
                        old_self.down@[i] + 1
                    } else {
                        old_self.down@[i]
                    },
            ),
        );
        self.up = Ghost(
            Seq::new(
                CAP as nat,
                |i: int|
                    if i == ii {
                        cu
                    } else if i == li {
                        cu + 1
                    } else if old_self.up@[i] >= cu {
                        old_self.up@[i] + 1
                    } else {
                        old_self.up@[i]
                    },
            ),
        );
        proof {
            assert(self.nodes@ =~= old_self.attach_nodes(curr as int, rect));
            assert(self.down@ =~= old_self.attach_down(curr as int));
            assert(self.up@ =~= old_self.attach_up(curr as int));
            assert(self.is_attached(&old_self, curr as int, rect));
            self.lemma_attach_free_list(&old_self, curr as int, rect);
            self.lemma_attach_slots(&old_self, curr as int, rect);
            self.lemma_attach_bounds(&old_self, curr as int, rect, bound);
            self.lemma_attach_leaves(&old_self, curr as int, rect);
            assert(self.size_wf()) by {
                reveal(StaticAABBTree::size_wf);
                reveal(StaticAABBTree::free_list_wf);
                assert(old_self.size_wf());
                assert(old_self.free_list_wf());
                assert(!old_self.used@.contains(fl[0]) && !old_self.used@.contains(fl[1]));
                assert(fl[0] != fl[1]);
                assert(old_self.used@.contains(curr as int));
                if old_self.count == 0 {
                    assert(old_self.used@.len() == 0);
                    old_self.used@.lemma_len0_is_empty();
                }
                assert(old_self.used@.insert(fl[0]).len() == old_self.used@.len() + 1);
            }
        }
        let ghost attached = *self;
        proof {
            assert(attached.nodes@[leaf_idx as int].parent == internal_idx);
            assert(attached.nodes@[internal_idx as int].left == curr);
            assert(attached.nodes@[internal_idx as int].right == leaf_idx);
        }
        self.fix_upwards(internal_idx, Ghost(bound));
        proof {
            assert(self.nodes@[leaf_idx as int].left == attached.nodes@[leaf_idx as int].left);
            assert(self.nodes@[leaf_idx as int].parent == attached.nodes@[leaf_idx as int].parent);
            assert(self.nodes@[internal_idx as int].left == attached.nodes@[internal_idx as int].left);
            assert(self.nodes@[internal_idx as int].right == attached.nodes@[internal_idx as int].right);
            assert(self.sibling(fl[0]) == curr as int);
            let li = fl[0];
            assert(self.leaves().dom().contains(li));
            self.lemma_root_encloses(li);
            self.lemma_slot(self.root as int);
        }
    }
}


impl<const CAP: usize> StaticAABBTree<CAP> {
    /// The slots after `attach_leaf` pairs leaf `curr` with a new leaf
    /// holding `rect`, taking the first two free slots.
    closed spec fn attach_nodes(&self, curr: int, rect: Rectangle) -> Seq<Node> {
        let fl = self.free_list@;
        let li = fl[0];
        let ii = fl[1];
        let c = self.nodes@[curr];
        let op = c.parent;
        let s1 = self.nodes@.update(
            li,
            Node { rect, left: NULL_NODE, right: NULL_NODE, parent: ii as u16 },
        ).update(curr, Node { parent: ii as u16, ..c }).update(
            ii,
            Node { rect: c.rect.spec_union(rect), left: curr as u16, right: li as u16, parent: op },
        );
        if op == NULL_NODE {
            s1
        } else {
            let p = s1[op as int];
            s1.update(
                op as int,
                if p.left as int == curr {
                    Node { left: ii as u16, ..p }
                } else {
                    Node { right: ii as u16, ..p }
                },
            )
        }
    }

    /// `attach_nodes` leaves every other slot as it was.
    proof fn lemma_attach_nodes_other(&self, curr: int, rect: Rectangle, x: int)
        requires
            self.free_list@.len() >= 2,
            0 <= self.free_list@[0] < self.nodes@.len(),
            0 <= self.free_list@[1] < self.nodes@.len(),
            0 <= curr < self.nodes@.len(),
            self.nodes@[curr].parent == NULL_NODE || 0 <= self.nodes@[curr].parent < self.nodes@.len(),
            0 <= x < self.nodes@.len(),
            x != self.free_list@[0],
            x != self.free_list@[1],
            x != curr,
            x != self.nodes@[curr].parent as int,
        ensures
            self.attach_nodes(curr, rect)[x] == self.nodes@[x],
    {
    }

    closed spec fn attach_down(&self, curr: int) -> Seq<int> {
        let fl = self.free_list@;
        let cd = self.down@[curr];
        Seq::new(
            CAP as nat,
            |i: int|
                if i == fl[1] {
                    cd + 1
                } else if i == fl[0] {
                    0
                } else if self.down@[i] > cd {
                    self.down@[i] + 1
                } else {
                    self.down@[i]
                },
        )
    }

    closed spec fn attach_up(&self, curr: int) -> Seq<int> {
        let fl = self.free_list@;
        let cu = self.up@[curr];
        Seq::new(
            CAP as nat,
            |i: int|
                if i == fl[1] {
                    cu
                } else if i == fl[0] {
                    cu + 1
                } else if self.up@[i] >= cu {
                    self.up@[i] + 1
                } else {
                    self.up@[i]
                },
        )
    }

    /// `self` is `old` after the pairing step of `attach_leaf`.
    closed spec fn is_attached(&self, old: &Self, curr: int, rect: Rectangle) -> bool {
        let fl = old.free_list@;
        &&& old.wf()
        &&& old.is_leaf_slot(curr)
        &&& fl.len() >= 2
        &&& rect.is_regular()
        &&& old.nodes@[curr].rect.can_union(rect)
        &&& self.nodes@ == old.attach_nodes(curr, rect)
        &&& self.down@ == old.attach_down(curr)
        &&& self.up@ == old.attach_up(curr)
        &&& self.used@ == old.used@.insert(fl[0]).insert(fl[1])
        &&& self.free_list@ == fl.subrange(2, fl.len() as int)
        &&& self.free_head == old.nodes@[fl[1]].left
        &&& self.count == old.count + 1
        &&& self.root as int == (if old.nodes@[curr].parent == NULL_NODE {
            fl[1]
        } else {
            old.root as int
        })
    }

    /// The free slots that `attach_leaf` leaves still link to each other.
    #[verifier::spinoff_prover]
    #[verifier::rlimit(60)]
    proof fn lemma_attach_links(&self, old: &Self, curr: int, rect: Rectangle)
        requires
            self.is_attached(old, curr, rect),
        ensures
            forall|k: int| 0 <= k < self.free_list@.len() ==> self.nodes@[#[trigger] self.free_list@[k]].left as int == (if k + 1 < self.free_list@.len() {
                self.free_list@[k + 1]
            } else {
                NULL_NODE as int
            }),
    {
        reveal(StaticAABBTree::free_list_wf);
        let fl = old.free_list@;
        let nfl = self.free_list@;
        assert(old.free_list_wf());
        assert(old.used@.contains(curr));
        old.lemma_slot(curr);
        let op = old.nodes@[curr].parent as int;
        if op != NULL_NODE {
            assert(old.used@.contains(op));
        }
        assert forall|k: int| 0 <= k < nfl.len() implies self.nodes@[#[trigger] nfl[k]].left as int == (if k + 1 < nfl.len() {
            nfl[k + 1]
        } else {
            NULL_NODE as int
        }) by {
            assert(nfl[k] == fl[k + 2]);
            assert(!old.used@.contains(fl[k + 2]));
            assert(fl[k + 2] != fl[0] && fl[k + 2] != fl[1]);
            old.lemma_attach_nodes_other(curr, rect, fl[k + 2]);
            assert(old.nodes@[fl[k + 2]].left as int == (if k + 3 < fl.len() { fl[k + 3] } else { NULL_NODE as int }));
        }
    }

    #[verifier::spinoff_prover]
    #[verifier::rlimit(100)]
    proof fn lemma_attach_free_list(&self, old: &Self, curr: int, rect: Rectangle)
        requires
            self.is_attached(old, curr, rect),
        ensures
            self.free_list_wf(),
            CAP <= NULL_NODE,
            self.nodes@.len() == CAP,
            self.down@.len() == CAP,
            self.up@.len() == CAP,
    {
        reveal(StaticAABBTree::free_list_wf);
        let fl = old.free_list@;
        let nfl = self.free_list@;
        assert(old.free_list_wf());
        assert(fl[0] != fl[1]);
        assert(old.used@.contains(curr));
        old.lemma_slot(curr);
        let op = old.nodes@[curr].parent as int;
        if op != NULL_NODE {
            assert(old.used@.contains(op));
        }
        assert forall|k: int| 0 <= k < nfl.len() implies 0 <= #[trigger] nfl[k] < CAP && !self.used@.contains(nfl[k]) by {
            assert(nfl[k] == fl[k + 2]);
        }
        assert forall|i: int| 0 <= i < CAP implies self.used@.contains(i) || nfl.contains(i) by {
            if !self.used@.contains(i) {
                assert(fl.contains(i));
                let k = choose|k: int| 0 <= k < fl.len() && fl[k] == i;
                assert(k >= 2);
                assert(nfl[k - 2] == i);
            }
        }
        self.lemma_attach_links(old, curr, rect);
        assert forall|i: int| #[trigger] self.used@.contains(i) implies 0 <= i < CAP by {
        }
        assert(nfl.no_duplicates());
        assert(old.nodes@[fl[0]].left as int == fl[1]);
    }

    #[verifier::spinoff_prover]
    #[verifier::rlimit(50)]
    proof fn lemma_attach_slots(&self, old: &Self, curr: int, rect: Rectangle)
        requires
            self.is_attached(old, curr, rect),
        ensures
            forall|i: int| #[trigger] self.used@.contains(i) ==> self.slot_wf(i),
            self.root != NULL_NODE,
            self.used@.contains(self.root as int),
    {
        reveal(StaticAABBTree::free_list_wf);
        reveal(StaticAABBTree::slot_wf);
        let fl = old.free_list@;
        let li = fl[0];
        let ii = fl[1];
        assert(old.free_list_wf());
        assert(li != ii);
        assert(!old.used@.contains(li) && !old.used@.contains(ii));
        assert(old.used@.contains(curr));
        assert(old.slot_wf(curr));
        let op = old.nodes@[curr].parent as int;
        if op != NULL_NODE {
            assert(old.slot_wf(op));
        }
        lemma_union_covers(old.nodes@[curr].rect, rect);
        assert forall|i: int| #[trigger] self.used@.contains(i) implies self.slot_wf(i) by {
            if i == li || i == ii || i == curr {
            } else {
                assert(old.slot_wf(i));
                let n = old.nodes@[i];
                if n.left != NULL_NODE {
                    assert(old.slot_wf(n.left as int));
                    assert(old.slot_wf(n.right as int));
                }
                if i != old.root {
                    assert(old.slot_wf(n.parent as int));
                }
            }
        }
    }

    #[verifier::spinoff_prover]
    proof fn lemma_attach_bounds(&self, old: &Self, curr: int, rect: Rectangle, bound: Rectangle)
        requires
            self.is_attached(old, curr, rect),
            bound.is_regular(),
            bound.encloses(rect),
            old.within(bound),
        ensures
            forall|i: int| #[trigger] self.used@.contains(i) ==> self.bounds_children(i) || i == old.free_list@[1]
                || i == self.parent_of(old.free_list@[1]),
            self.within(bound),
    {
        reveal(StaticAABBTree::free_list_wf);
        reveal(StaticAABBTree::slot_wf);
        reveal(StaticAABBTree::bounds_children);
        reveal(StaticAABBTree::unites_children);
        let fl = old.free_list@;
        let li = fl[0];
        let ii = fl[1];
        assert(old.free_list_wf());
        assert(li != ii);
        assert(old.used@.contains(curr));
        assert(old.slot_wf(curr));
        let op = old.nodes@[curr].parent as int;
        lemma_union_covers(old.nodes@[curr].rect, rect);
        lemma_union_least(old.nodes@[curr].rect, rect, bound);
        assert forall|i: int| #[trigger] self.used@.contains(i) implies self.bounds_children(i) || i == ii || i
            == self.parent_of(ii) by {
            if i != li && i != ii && i != op && i != curr {
                assert(old.bounds_children(i));
                assert(old.slot_wf(i));
                let n = old.nodes@[i];
                if n.left != NULL_NODE {
                    assert(n.left as int != curr && n.right as int != curr);
                }
            }
        }
    }

    #[verifier::spinoff_prover]
    proof fn lemma_attach_leaves(&self, old: &Self, curr: int, rect: Rectangle)
        requires
            self.is_attached(old, curr, rect),
        ensures
            self.leaves() == old.leaves().insert(old.free_list@[0], rect),
            !old.leaves().dom().contains(old.free_list@[0]),
            self.count as int == self.leaves().dom().len(),
    {
        reveal(StaticAABBTree::free_list_wf);
        reveal(StaticAABBTree::slot_wf);
        let fl = old.free_list@;
        let li = fl[0];
        let ii = fl[1];
        assert(old.free_list_wf());
        assert(li != ii);
        assert(old.used@.contains(curr));
        assert(old.slot_wf(curr));
        let op = old.nodes@[curr].parent as int;
        if op != NULL_NODE {
            assert(old.slot_wf(op));
        }
        old.lemma_leaves_finite();
        assert(self.leaves() =~= old.leaves().insert(li, rect));
    }
}


/// The kinds of leaves a search looks for.
#[derive(Clone, Copy, PartialEq, Eq, Structural)]
enum Query {
    /// Leaves that overlap the target
    Intersects,
    /// Leaves that overlap the target and lie inside it
    Contained,
    /// Leaves equal to the target
    Equal,
}

/// A leaf is found by an intersection query when it overlaps the target.
pub open spec fn leaf_matches_intersects(rect: Rectangle, target: Rectangle) -> bool {
    rect.spec_intersects(target)
}

/// A leaf is drained as contained when it overlaps the target and lies inside it.
pub open spec fn leaf_matches_contained(rect: Rectangle, target: Rectangle) -> bool {
    rect.spec_intersects(target) && target.encloses(rect)
}

spec fn query_matches(query: Query, rect: Rectangle, target: Rectangle) -> bool {
    match query {
        Query::Intersects => leaf_matches_intersects(rect, target),
        Query::Contained => leaf_matches_contained(rect, target),
        Query::Equal => rect == target,
    }
}

impl<const CAP: usize> StaticAABBTree<CAP> {
    /// The facts that the invariant keeps about one used slot.
    proof fn lemma_slot(&self, i: int)
        requires
            self.shape_wf(),
            self.used@.contains(i),
        ensures
            0 <= i < CAP,
            (self.nodes@[i].left == NULL_NODE) == (self.nodes@[i].right == NULL_NODE),
            self.nodes@[i].left != NULL_NODE ==> {
                let n = self.nodes@[i];
                &&& self.used@.contains(n.left as int)
                &&& self.used@.contains(n.right as int)
                &&& n.left != n.right
                &&& self.nodes@[n.left as int].parent as int == i
                &&& self.nodes@[n.right as int].parent as int == i
                &&& self.up@[n.left as int] > self.up@[i]
                &&& self.up@[n.right as int] > self.up@[i]
            },
            i != self.root ==> {
                let p = self.nodes@[i].parent;
                &&& p != NULL_NODE
                &&& self.used@.contains(p as int)
                &&& (self.nodes@[p as int].left as int == i || self.nodes@[p as int].right as int
                    == i)
                &&& self.up@[p as int] < self.up@[i]
                &&& self.up@[p as int] >= 0
            },
            i == self.root ==> self.nodes@[i].parent == NULL_NODE,
            self.up@[i] >= 0,
            self.nodes@[i].rect.is_regular(),
            self.down@[i] >= 0,
            self.nodes@[i].left != NULL_NODE ==> {
                &&& self.down@[self.nodes@[i].left as int] < self.down@[i]
                &&& self.down@[self.nodes@[i].right as int] < self.down@[i]
                &&& self.down@[self.nodes@[i].left as int] >= 0
                &&& self.down@[self.nodes@[i].right as int] >= 0
            },
    {
        reveal(StaticAABBTree::free_list_wf);
        reveal(StaticAABBTree::slot_wf);
        assert(self.slot_wf(i));
        if i != self.root {
            assert(self.slot_wf(self.nodes@[i].parent as int));
        }
        if self.nodes@[i].left != NULL_NODE {
            assert(self.slot_wf(self.nodes@[i].left as int));
            assert(self.slot_wf(self.nodes@[i].right as int));
        }
    }

    /// `m` is `a`, or lies below it within `fuel` steps up the parent links.
    closed spec fn below(&self, m: int, a: int, fuel: nat) -> bool
        decreases fuel,
    {
        m == a || (fuel > 0 && m != self.root && self.below(
            self.nodes@[m].parent as int,
            a,
            (fuel - 1) as nat,
        ))
    }

    /// `m` lies in the subtree of `a`.
    closed spec fn in_sub(&self, m: int, a: int) -> bool {
        self.below(m, a, self.up@[m] as nat)
    }

    proof fn lemma_below_mono(&self, m: int, a: int, f: nat, g: nat)
        requires
            self.below(m, a, f),
            f <= g,
        ensures
            self.below(m, a, g),
        decreases f,
    {
        if m != a {
            self.lemma_below_mono(self.nodes@[m].parent as int, a, (f - 1) as nat, (g - 1) as nat);
        }
    }

    /// A chain up the parent links climbs the `up` rank and stays among used
    /// slots, so `up[m]` steps always suffice.
    proof fn lemma_below_normal(&self, m: int, a: int, f: nat)
        requires
            self.shape_wf(),
            self.used@.contains(m),
            self.below(m, a, f),
        ensures
            self.in_sub(m, a),
            self.used@.contains(a),
            self.up@[a] <= self.up@[m],
            m != a ==> self.up@[a] < self.up@[m],
        decreases f,
    {
        self.lemma_slot(m);
        if m != a {
            let p = self.nodes@[m].parent as int;
            self.lemma_below_normal(p, a, (f - 1) as nat);
            self.lemma_below_mono(p, a, self.up@[p] as nat, (self.up@[m] - 1) as nat);
        } else {
            assert(self.below(m, m, self.up@[m] as nat));
        }
    }

    /// A slot other than `a` in the subtree of `a` has its parent there too.
    proof fn lemma_sub_parent(&self, m: int, a: int)
        requires
            self.shape_wf(),
            self.used@.contains(m),
            self.in_sub(m, a),
            m != a,
        ensures
            m != self.root,
            self.used@.contains(self.nodes@[m].parent as int),
            self.in_sub(self.nodes@[m].parent as int, a),
            self.up@[self.nodes@[m].parent as int] < self.up@[m],
            self.up@[self.nodes@[m].parent as int] >= 0,
    {
        self.lemma_slot(m);
        let p = self.nodes@[m].parent as int;
        self.lemma_below_normal(p, a, (self.up@[m] - 1) as nat);
    }

    /// The subtree relation only climbs the `up` rank.
    proof fn lemma_sub_up(&self, m: int, a: int)
        requires
            self.shape_wf(),
            self.used@.contains(m),
            self.in_sub(m, a),
        ensures
            self.used@.contains(a),
            self.up@[a] <= self.up@[m],
            m != a ==> self.up@[a] < self.up@[m],
    {
        self.lemma_below_normal(m, a, self.up@[m] as nat);
    }

    proof fn lemma_sub_refl(&self, m: int)
        ensures
            self.in_sub(m, m),
    {
        assert(self.below(m, m, self.up@[m] as nat));
    }

    /// Both children of an internal slot lie in its subtree.
    proof fn lemma_child_in_sub(&self, x: int, c: int)
        requires
            self.shape_wf(),
            self.used@.contains(x),
            self.nodes@[x].left != NULL_NODE,
            c == self.nodes@[x].left as int || c == self.nodes@[x].right as int,
        ensures
            self.in_sub(c, x),
            c != x,
            self.used@.contains(c),
    {
        self.lemma_slot(x);
        self.lemma_slot(c);
        assert(self.below(x, x, (self.up@[c] - 1) as nat));
        assert(self.below(c, x, self.up@[c] as nat));
    }

    proof fn lemma_sub_trans(&self, m: int, c: int, x: int)
        requires
            self.shape_wf(),
            self.used@.contains(m),
            self.in_sub(m, c),
            self.in_sub(c, x),
        ensures
            self.in_sub(m, x),
        decreases self.up@[m],
    {
        if m != c {
            self.lemma_sub_parent(m, c);
            let p = self.nodes@[m].parent as int;
            self.lemma_sub_trans(p, c, x);
            if m != x {
                self.lemma_below_mono(p, x, self.up@[p] as nat, (self.up@[m] - 1) as nat);
                assert(self.below(m, x, self.up@[m] as nat));
            } else {
                self.lemma_sub_refl(m);
            }
        }
    }

    /// A slot strictly inside the subtree of `x` lies in the subtree of one
    /// of its children.
    proof fn lemma_sub_step(&self, m: int, x: int)
        requires
            self.shape_wf(),
            self.used@.contains(m),
            self.in_sub(m, x),
            m != x,
        ensures
            self.nodes@[x].left != NULL_NODE,
            self.in_sub(m, self.nodes@[x].left as int) || self.in_sub(m, self.nodes@[x].right as int),
        decreases self.up@[m],
    {
        self.lemma_sub_parent(m, x);
        self.lemma_slot(m);
        let p = self.nodes@[m].parent as int;
        self.lemma_slot(p);
        self.lemma_sub_refl(m);
        if p != x {
            self.lemma_sub_step(p, x);
            self.lemma_child_in_sub(p, m);
            let l = self.nodes@[x].left as int;
            let r = self.nodes@[x].right as int;
            if self.in_sub(p, l) {
                self.lemma_sub_trans(m, p, l);
            } else {
                self.lemma_sub_trans(m, p, r);
            }
        }
    }

    /// Only a leaf itself lies in the subtree of a leaf.
    proof fn lemma_sub_leaf(&self, m: int, x: int)
        requires
            self.shape_wf(),
            self.used@.contains(m),
            self.in_sub(m, x),
            self.nodes@[x].left == NULL_NODE,
        ensures
            m == x,
    {
        if m != x {
            self.lemma_sub_step(m, x);
        }
    }

    /// Two slots whose subtrees share a slot are nested.
    proof fn lemma_sub_comparable(&self, m: int, a: int, b: int)
        requires
            self.shape_wf(),
            self.used@.contains(m),
            self.in_sub(m, a),
            self.in_sub(m, b),
        ensures
            self.in_sub(a, b) || self.in_sub(b, a),
        decreases self.up@[m],
    {
        if m != a && m != b {
            self.lemma_sub_parent(m, a);
            self.lemma_sub_parent(m, b);
            self.lemma_sub_comparable(self.nodes@[m].parent as int, a, b);
        }
    }

    /// The subtrees of the two children of a slot share no slot.
    proof fn lemma_siblings_disjoint(&self, x: int, m: int)
        requires
            self.shape_wf(),
            self.used@.contains(x),
            self.used@.contains(m),
            self.nodes@[x].left != NULL_NODE,
        ensures
            !(self.in_sub(m, self.nodes@[x].left as int) && self.in_sub(m, self.nodes@[x].right as int)),
            !self.in_sub(self.nodes@[x].left as int, self.nodes@[x].right as int),
            !self.in_sub(self.nodes@[x].right as int, self.nodes@[x].left as int),
    {
        self.lemma_slot(x);
        let l = self.nodes@[x].left as int;
        let r = self.nodes@[x].right as int;
        self.lemma_slot(l);
        self.lemma_slot(r);
        if self.in_sub(l, r) {
            self.lemma_sub_parent(l, r);
            self.lemma_sub_up(x, r);
        }
        if self.in_sub(r, l) {
            self.lemma_sub_parent(r, l);
            self.lemma_sub_up(x, l);
        }
        if self.in_sub(m, l) && self.in_sub(m, r) {
            self.lemma_sub_comparable(m, l, r);
        }
    }

    /// Every used slot lies in the subtree of the root.
    proof fn lemma_in_root(&self, m: int)
        requires
            self.shape_wf(),
            self.used@.contains(m),
        ensures
            self.in_sub(m, self.root as int),
        decreases self.up@[m],
    {
        self.lemma_slot(m);
        if m != self.root {
            let p = self.nodes@[m].parent as int;
            self.lemma_in_root(p);
            self.lemma_below_mono(p, self.root as int, self.up@[p] as nat, (self.up@[m] - 1) as nat);
            assert(self.below(m, self.root as int, self.up@[m] as nat));
        } else {
            self.lemma_sub_refl(m);
        }
    }

    /// A slot bounds everything in its subtree.
    proof fn lemma_sub_enclosed(&self, m: int, a: int)
        requires
            self.wf(),
            self.used@.contains(m),
            self.in_sub(m, a),
        ensures
            self.nodes@[a].rect.encloses(self.nodes@[m].rect),
        decreases self.up@[m],
    {
        reveal(StaticAABBTree::bounds_children);
        if m != a {
            self.lemma_sub_parent(m, a);
            self.lemma_slot(m);
            let p = self.nodes@[m].parent as int;
            self.lemma_slot(p);
            assert(self.bounds_children(p));
            self.lemma_sub_enclosed(p, a);
            lemma_encloses_transitive(
                self.nodes@[a].rect,
                self.nodes@[p].rect,
                self.nodes@[m].rect,
                self.nodes@[m].rect,
            );
        }
    }
}

impl<const CAP: usize> StaticAABBTree<CAP> {
    /// The slots still to visit: used, and none in the subtree of another.
    closed spec fn pending_ok(&self, pend: Seq<u16>) -> bool {
        &&& forall|j: int| 0 <= j < pend.len() ==> self.used@.contains(#[trigger] pend[j] as int)
        &&& forall|i: int, j: int|
            0 <= i < pend.len() && 0 <= j < pend.len() && i != j ==> !self.in_sub(
                #[trigger] pend[i] as int,
                #[trigger] pend[j] as int,
            )
    }

    /// No slot of `xs` lies in the subtree of a pending slot.
    closed spec fn outside(&self, xs: Set<int>, pend: Seq<u16>) -> bool {
        forall|x: int, j: int|
            #[trigger] xs.contains(x) && 0 <= j < pend.len() ==> !self.in_sub(x, #[trigger] pend[j] as int)
    }

    /// `m` was found, or lies in the subtree of a pending slot.
    closed spec fn covered(&self, m: int, found: Seq<u16>, pend: Seq<u16>) -> bool {
        ||| exists|k: int| 0 <= k < found.len() && #[trigger] found[k] as int == m
        ||| exists|j: int| 0 <= j < pend.len() && self.in_sub(m, #[trigger] pend[j] as int)
    }

    /// Taking the last pending slot off the list.
    proof fn lemma_pop(&self, pend: Seq<u16>, visited: Set<int>, found: Seq<u16>)
        requires
            self.shape_wf(),
            pend.len() > 0,
            self.pending_ok(pend),
            self.outside(visited, pend),
        ensures
            self.pending_ok(pend.drop_last()),
            self.outside(visited.insert(pend.last() as int), pend.drop_last()),
            !visited.contains(pend.last() as int),
            forall|m: int|
                #[trigger] self.covered(m, found, pend) ==> self.covered(m, found, pend.drop_last())
                    || self.in_sub(m, pend.last() as int),
    {
        let n = pend.len() - 1;
        let rest = pend.drop_last();
        let c = pend.last() as int;
        self.lemma_sub_refl(c);
        assert(pend[n] as int == c);
        assert forall|x: int, j: int|
            #[trigger] visited.insert(c).contains(x) && 0 <= j < rest.len() implies !self.in_sub(
                x,
                #[trigger] rest[j] as int,
            ) by {
            assert(rest[j] == pend[j]);
            if x == c {
                assert(!self.in_sub(pend[n] as int, pend[j] as int));
            }
        }
        assert forall|m: int| #[trigger] self.covered(m, found, pend) implies self.covered(m, found, rest)
            || self.in_sub(m, c) by {
            if !(exists|k: int| 0 <= k < found.len() && #[trigger] found[k] as int == m) {
                let j = choose|j: int| 0 <= j < pend.len() && self.in_sub(m, #[trigger] pend[j] as int);
                if j < n {
                    assert(rest[j] == pend[j]);
                }
            }
        }
        assert forall|i: int, j: int|
            0 <= i < rest.len() && 0 <= j < rest.len() && i != j implies !self.in_sub(
                #[trigger] rest[i] as int,
                #[trigger] rest[j] as int,
            ) by {
            assert(rest[i] == pend[i]);
            assert(rest[j] == pend[j]);
        }
        assert forall|j: int| 0 <= j < rest.len() implies self.used@.contains(#[trigger] rest[j] as int) by {
            assert(rest[j] == pend[j]);
        }
    }

    /// Replacing the last pending slot, an internal one, by its two children.
    #[verifier::spinoff_prover]
    #[verifier::rlimit(40)]
    proof fn lemma_push(&self, pend: Seq<u16>, visited: Set<int>)
        requires
            self.shape_wf(),
            pend.len() > 0,
            self.pending_ok(pend),
            self.outside(visited, pend),
            forall|v: int| #[trigger] visited.contains(v) ==> self.used@.contains(v),
            self.nodes@[pend.last() as int].left != NULL_NODE,
        ensures
            ({
                let c = pend.last() as int;
                let next = pend.drop_last().push(self.nodes@[c].left).push(self.nodes@[c].right);
                &&& self.pending_ok(next)
                &&& self.outside(visited.insert(c), next)
                &&& next.len() <= self.leaves().dom().len()
            }),
    {
        let n = pend.len() - 1;
        let rest = pend.drop_last();
        let c = pend.last() as int;
        let l = self.nodes@[c].left;
        let r = self.nodes@[c].right;
        let next = rest.push(l).push(r);
        assert(pend[n] as int == c);
        assert(self.used@.contains(c));
        self.lemma_slot(c);
        self.lemma_child_in_sub(c, l as int);
        self.lemma_child_in_sub(c, r as int);
        self.lemma_siblings_disjoint(c, c);
        self.lemma_sub_refl(c);
        assert(next[n] == l && next[n + 1] == r);
        // a child is neither above nor below another pending slot
        assert forall|j: int, k: int|
            0 <= j < n && (k == n || k == n + 1) implies !self.in_sub(
                #[trigger] next[j] as int,
                #[trigger] next[k] as int,
            ) && !self.in_sub(next[k] as int, next[j] as int) by {
            let s = pend[j] as int;
            let ch = next[k] as int;
            assert(next[j] == pend[j]);
            assert(!self.in_sub(s, c));
            assert(!self.in_sub(c, s));
            if self.in_sub(s, ch) {
                self.lemma_sub_trans(s, ch, c);
            }
            if self.in_sub(ch, s) {
                if ch == s {
                } else {
                    self.lemma_sub_parent(ch, s);
                }
            }
        }
        assert forall|i: int, j: int|
            0 <= i < next.len() && 0 <= j < next.len() && i != j implies !self.in_sub(
                #[trigger] next[i] as int,
                #[trigger] next[j] as int,
            ) by {
            if i < n && j < n {
                assert(next[i] == pend[i] && next[j] == pend[j]);
            }
        }
        assert forall|j: int| 0 <= j < next.len() implies self.used@.contains(#[trigger] next[j] as int) by {
            if j < n {
                assert(next[j] == pend[j]);
            }
        }
        assert forall|x: int, j: int|
            #[trigger] visited.insert(c).contains(x) && 0 <= j < next.len() implies !self.in_sub(
                x,
                #[trigger] next[j] as int,
            ) by {
            if j < n {
                assert(next[j] == pend[j]);
                if x == c {
                    assert(!self.in_sub(pend[n] as int, pend[j] as int));
                }
            } else {
                let ch = next[j] as int;
                if x == c {
                    if self.in_sub(c, ch) {
                        self.lemma_sub_up(c, ch);
                    }
                } else {
                    assert(!self.in_sub(x, pend[n] as int));
                    if self.in_sub(x, ch) {
                        self.lemma_sub_trans(x, ch, c);
                    }
                }
            }
        }
        assert(self.pending_ok(next));
        self.lemma_pending_leaves(next);
    }
}

impl<const CAP: usize> StaticAABBTree<CAP> {
    /// Finding more slots, or keeping more pending, covers at least as much.
    proof fn lemma_covered_grow(&self, m: int, found: Seq<u16>, pend: Seq<u16>, found2: Seq<u16>, pend2: Seq<u16>)
        requires
            self.covered(m, found, pend),
            found.len() <= found2.len(),
            pend.len() <= pend2.len(),
            forall|k: int| 0 <= k < found.len() ==> found2[k] == found[k],
            forall|k: int| 0 <= k < pend.len() ==> pend2[k] == pend[k],
        ensures
            self.covered(m, found2, pend2),
    {
        if exists|k: int| 0 <= k < found.len() && #[trigger] found[k] as int == m {
            let k = choose|k: int| 0 <= k < found.len() && #[trigger] found[k] as int == m;
            assert(found2[k] as int == m);
        } else {
            let j = choose|j: int| 0 <= j < pend.len() && self.in_sub(m, #[trigger] pend[j] as int);
            assert(pend2[j] == pend[j]);
        }
    }

    /// A leaf in the subtree of `s`, when there is one.
    spec fn leaf_under(&self, s: int) -> int {
        choose|l: int| self.is_leaf_slot(l) && self.in_sub(l, s)
    }

    /// Pending slots have disjoint subtrees with a leaf in each, so there
    /// are no more of them than leaves.
    proof fn lemma_pending_leaves(&self, pend: Seq<u16>)
        requires
            self.shape_wf(),
            self.pending_ok(pend),
        ensures
            pend.len() <= self.leaves().dom().len(),
    {
        let ls = Seq::new(pend.len(), |j: int| self.leaf_under(pend[j] as int));
        assert forall|j: int| 0 <= j < ls.len() implies #[trigger] self.is_leaf_slot(ls[j]) && self.in_sub(
            ls[j],
            pend[j] as int,
        ) by {
            let l = self.lemma_leaf_below(pend[j] as int);
        }
        assert forall|a: int, b: int| 0 <= a < b < ls.len() implies ls[a] != ls[b] by {
            if ls[a] == ls[b] {
                assert(self.is_leaf_slot(ls[a]));
                self.lemma_sub_comparable(ls[a], pend[a] as int, pend[b] as int);
            }
        }
        assert(ls.no_duplicates());
        ls.unique_seq_to_set();
        self.lemma_leaves_finite();
        assert forall|l: int| #[trigger] ls.to_set().contains(l) implies self.leaves().dom().contains(l) by {
            let j = choose|j: int| 0 <= j < ls.len() && ls[j] == l;
            assert(self.is_leaf_slot(ls[j]));
        }
        vstd::set_lib::lemma_len_subset(ls.to_set(), self.leaves().dom());
    }

    /// A set of used slots has at most `CAP` members.
    proof fn lemma_used_bound(&self, xs: Set<int>)
        requires
            self.shape_wf(),
            forall|v: int| #[trigger] xs.contains(v) ==> self.used@.contains(v),
        ensures
            xs.finite(),
            xs.len() <= CAP,
    {
        let r = vstd::set_lib::set_int_range(0, CAP as int);
        vstd::set_lib::lemma_int_range(0, CAP as int);
        assert forall|v: int| #[trigger] xs.contains(v) implies r.contains(v) by {
            self.lemma_slot(v);
        }
        vstd::set_lib::lemma_len_subset(xs, r);
    }

    /// A walk down the tree from the root. It enters a slot whose bounds meet
    /// the target (for `Query::Equal`, whose bounds enclose it) and collects
    /// the leaves that `query` looks for, stopping at the first one when
    /// `first_only` is set. Pending slots wait on a stack of `CAP` entries,
    /// which never fills: the pending slots have disjoint subtrees, so there
    /// are fewer of them than slots.
    #[verifier::rlimit(60)]
    fn search(&self, target: &Rectangle, query: Query, first_only: bool) -> (found: Vec<u16>)
        requires
            self.wf(),
            target.edges_fit(),
        ensures
            forall|k: int|
                0 <= k < found.len() ==> self.is_leaf_slot(#[trigger] found@[k] as int)
                    && query_matches(query, self.nodes@[found@[k] as int].rect, *target),
            found@.no_duplicates(),
            first_only ==> found.len() <= 1,
            !first_only || found.len() == 0 ==> forall|m: int|
                #[trigger] self.is_leaf_slot(m) && query_matches(query, self.nodes@[m].rect, *target)
                    ==> exists|k: int| 0 <= k < found.len() && #[trigger] found@[k] as int == m,
    {
        let mut found: Vec<u16> = Vec::new();
        if self.root == NULL_NODE {
            return found;
        }
        proof {
            self.lemma_slot(self.root as int);
        }
        let mut stack: [u16; CAP] = vstd::array::array_fill_for_copy_types::<u16, CAP>(NULL_NODE);
        stack[0] = self.root;
        let mut top: usize = 1;
        let ghost mut pend: Seq<u16> = seq![self.root];
        let ghost mut visited: Set<int> = Set::empty();
        proof {
            assert(pend[0] == self.root);
            assert forall|m: int|
                #[trigger] self.is_leaf_slot(m) && query_matches(
                    query,
                    self.nodes@[m].rect,
                    *target,
                ) implies self.covered(m, found@, pend) by {
                self.lemma_in_root(m);
            }
            assert(self.pending_ok(pend));
        }
        while top > 0
            invariant
                self.wf(),
                target.edges_fit(),
                top == pend.len(),
                top <= CAP,
                stack@.len() == CAP,
                forall|j: int| 0 <= j < top ==> stack@[j] == pend[j],
                self.pending_ok(pend),
                visited.finite(),
                visited.len() <= CAP,
                forall|v: int| #[trigger] visited.contains(v) ==> self.used@.contains(v),
                self.outside(visited, pend),
                forall|k: int|
                    0 <= k < found.len() ==> visited.contains(#[trigger] found@[k] as int)
                        && self.is_leaf_slot(found@[k] as int) && query_matches(
                        query,
                        self.nodes@[found@[k] as int].rect,
                        *target,
                    ),
                found@.no_duplicates(),
                first_only ==> found.len() == 0,
                forall|m: int|
                    #[trigger] self.is_leaf_slot(m) && query_matches(query, self.nodes@[m].rect, *target)
                        ==> self.covered(m, found@, pend),
            decreases CAP - visited.len(),
        {
            top = top - 1;
            let curr = stack[top];
            let ghost old_pend = pend;
            let ghost old_visited = visited;
            let ghost old_found = found@;
            proof {
                assert(curr == pend.last());
                assert(self.used@.contains(curr as int));
                self.lemma_slot(curr as int);
                self.lemma_pop(pend, visited, found@);
                pend = pend.drop_last();
                visited = visited.insert(curr as int);
                self.lemma_used_bound(visited);
            }
            let rect = self.nodes[curr as usize].rect;
            let descend = match query {
                Query::Equal => rect.contains_rect(target),
                _ => rect.intersects(target),
            };
            if !descend {
                proof {
                    assert forall|m: int|
                        #[trigger] self.is_leaf_slot(m) && query_matches(
                            query,
                            self.nodes@[m].rect,
                            *target,
                        ) implies self.covered(m, found@, pend) by {
                        assert(self.covered(m, old_found, old_pend));
                        if self.in_sub(m, curr as int) {
                            self.lemma_sub_enclosed(m, curr as int);
                            lemma_encloses_transitive(rect, self.nodes@[m].rect, *target, *target);
                        }
                    }
                }
            } else if self.is_leaf(curr) {
                let hit = match query {
                    Query::Intersects => true,
                    Query::Contained => target.contains_rect(&rect),
                    Query::Equal => rect == *target,
                };
                if hit {
                    found.push(curr);
                    proof {
                        assert(found@.last() == curr);
                        assert(found@ == old_found.push(curr));
                        assert forall|m: int|
                            #[trigger] self.is_leaf_slot(m) && query_matches(
                                query,
                                self.nodes@[m].rect,
                                *target,
                            ) implies self.covered(m, found@, pend) by {
                            assert(self.covered(m, old_found, old_pend));
                            if self.in_sub(m, curr as int) {
                                self.lemma_sub_leaf(m, curr as int);
                                assert(found@[old_found.len() as int] as int == m);
                            } else {
                                self.lemma_covered_grow(m, old_found, pend, found@, pend);
                            }
                        }
                    }
                    if first_only {
                        return found;
                    }
                } else {
                    proof {
                        assert forall|m: int|
                            #[trigger] self.is_leaf_slot(m) && query_matches(
                                query,
                                self.nodes@[m].rect,
                                *target,
                            ) implies self.covered(m, found@, pend) by {
                            assert(self.covered(m, old_found, old_pend));
                            if self.in_sub(m, curr as int) {
                                self.lemma_sub_leaf(m, curr as int);
                            }
                        }
                    }
                }
            } else {
                proof {
                    self.lemma_push(old_pend, old_visited);
                }
                if top + 2 <= CAP {
                    let left = self.nodes[curr as usize].left;
                    let right = self.nodes[curr as usize].right;
                    stack[top] = left;
                    stack[top + 1] = right;
                    top = top + 2;
                    proof {
                        let popped = pend;
                        pend = popped.push(left).push(right);
                        assert(pend[popped.len() as int] == left);
                        assert(pend[popped.len() as int + 1] == right);
                        assert forall|m: int|
                            #[trigger] self.is_leaf_slot(m) && query_matches(
                                query,
                                self.nodes@[m].rect,
                                *target,
                            ) implies self.covered(m, found@, pend) by {
                            assert(self.covered(m, old_found, old_pend));
                            if self.in_sub(m, curr as int) {
                                self.lemma_sub_step(m, curr as int);
                            } else {
                                self.lemma_covered_grow(m, found@, popped, found@, pend);
                            }
                        }
                    }
                } else {
                    proof {
                        self.lemma_capacity();
                        assert(false);
                    }
                }
            }
        }
        found
    }
}

impl<const CAP: usize> StaticAABBTree<CAP> {
    /// The slots after `remove_leaf` unlinks the leaf `leaf`, which has a
    /// parent: the leaf and its parent go to the free list, and the
    /// sibling takes the parent's place under the grandparent.
    #[verifier::opaque]
    closed spec fn detach_nodes(&self, leaf: int) -> Seq<Node> {
        let p = self.nodes@[leaf].parent as int;
        let pn = self.nodes@[p];
        let s = if pn.left as int == leaf { pn.right } else { pn.left };
        let g = pn.parent;
        let s1 = self.nodes@.update(leaf, Node { left: self.free_head, ..self.nodes@[leaf] });
        let s2 = s1.update(s as int, Node { parent: g, ..s1[s as int] });
        let s3 = if g == NULL_NODE {
            s2
        } else {
            let gn = s2[g as int];
            s2.update(
                g as int,
                if gn.left as int == p {
                    Node { left: s, ..gn }
                } else {
                    Node { right: s, ..gn }
                },
            )
        };
        s3.update(p, Node { left: leaf as u16, ..s3[p] })
    }

    /// `self` is `old` after `remove_leaf` unlinked `leaf`, which has a parent.
    closed spec fn is_detached(&self, old: &Self, leaf: int) -> bool {
        let p = old.nodes@[leaf].parent as int;
        let pn = old.nodes@[p];
        let s = if pn.left as int == leaf { pn.right } else { pn.left };
        let g = pn.parent;
        &&& old.wf()
        &&& old.is_leaf_slot(leaf)
        &&& p != NULL_NODE
        &&& self.nodes@ == old.detach_nodes(leaf)
        &&& self.down@ == old.down@
        &&& self.up@ == old.up@
        &&& self.used@ == old.used@.remove(leaf).remove(p)
        &&& self.free_list@ == seq![p, leaf] + old.free_list@
        &&& self.free_head as int == p
        &&& self.count + 1 == old.count
        &&& self.root == (if g == NULL_NODE { s } else { old.root })
    }

    /// The slots that `detach_nodes` touches, and how they sit in the tree.
    proof fn lemma_detach_facts(&self, old: &Self, leaf: int)
        requires
            self.is_detached(old, leaf),
        ensures
            ({
                let p = old.nodes@[leaf].parent as int;
                let pn = old.nodes@[p];
                let s = (if pn.left as int == leaf { pn.right } else { pn.left }) as int;
                let g = pn.parent as int;
                &&& old.used@.contains(p)
                &&& old.used@.contains(s)
                &&& 0 <= leaf < CAP
                &&& 0 <= p < CAP
                &&& 0 <= s < CAP
                &&& leaf != p && leaf != s && p != s
                &&& pn.left != NULL_NODE
                &&& (pn.left as int == leaf || pn.right as int == leaf)
                &&& old.nodes@[s].parent as int == p
                &&& g != NULL_NODE ==> {
                    &&& old.used@.contains(g)
                    &&& 0 <= g < CAP
                    &&& g != leaf && g != p && g != s
                    &&& (old.nodes@[g].left as int == p || old.nodes@[g].right as int == p)
                    &&& old.down@[p] < old.down@[g]
                    &&& old.up@[p] > old.up@[g]
                    &&& p != old.root
                }
                &&& g == NULL_NODE ==> p == old.root
                &&& old.down@[s] < old.down@[p]
                &&& old.up@[s] > old.up@[p]
                &&& leaf != old.root
                &&& self.nodes@.len() == CAP
                &&& forall|j: int|
                    0 <= j < CAP ==> {
                        &&& (#[trigger] self.nodes@[j]).rect == old.nodes@[j].rect
                        &&& (j != leaf && j != p && j != g ==> self.nodes@[j].left == old.nodes@[j].left)
                        &&& (j != g ==> self.nodes@[j].right == old.nodes@[j].right)
                        &&& (j != s ==> self.nodes@[j].parent == old.nodes@[j].parent)
                    }
                &&& self.nodes@[leaf].left == old.free_head
                &&& self.nodes@[p].left as int == leaf
                &&& self.nodes@[s].parent as int == g
                &&& g != NULL_NODE ==> (if old.nodes@[g].left as int == p {
                    self.nodes@[g].left as int == s && self.nodes@[g].right == old.nodes@[g].right
                } else {
                    self.nodes@[g].left == old.nodes@[g].left && self.nodes@[g].right as int == s
                })
            }),
    {
        reveal(StaticAABBTree::detach_nodes);
        reveal(StaticAABBTree::free_list_wf);
        reveal(StaticAABBTree::slot_wf);
        let p = old.nodes@[leaf].parent as int;
        let pn = old.nodes@[p];
        let g = pn.parent as int;
        old.lemma_slot(leaf);
        assert(leaf != old.root);
        old.lemma_slot(p);
        if g != NULL_NODE {
            assert(p != old.root);
            old.lemma_slot(g);
        }
    }

    /// The free-list invariant, spelled out.
    proof fn lemma_free_list_elim(&self)
        requires
            self.free_list_wf(),
        ensures
            self.free_list@.no_duplicates(),
            forall|k: int| 0 <= k < self.free_list@.len() ==> 0 <= #[trigger] self.free_list@[k] < CAP,
            forall|k: int|
                0 <= k < self.free_list@.len() ==> !self.used@.contains(#[trigger] self.free_list@[k]),
            forall|i: int| 0 <= i < CAP ==> #[trigger] self.used@.contains(i) || self.free_list@.contains(i),
            forall|i: int| #[trigger] self.used@.contains(i) ==> 0 <= i < CAP,
            self.free_head as int == (if self.free_list@.len() == 0 {
                NULL_NODE as int
            } else {
                self.free_list@[0]
            }),
            forall|k: int|
                0 <= k < self.free_list@.len() ==> (#[trigger] self.nodes@[self.free_list@[k]]).left as int == (if k
                    + 1 < self.free_list@.len() {
                    self.free_list@[k + 1]
                } else {
                    NULL_NODE as int
                }),
    {
        reveal(StaticAABBTree::free_list_wf);
    }

    proof fn lemma_free_list_intro(&self)
        requires
            self.free_list@.no_duplicates(),
            forall|k: int| 0 <= k < self.free_list@.len() ==> 0 <= #[trigger] self.free_list@[k] < CAP,
            forall|k: int|
                0 <= k < self.free_list@.len() ==> !self.used@.contains(#[trigger] self.free_list@[k]),
            forall|i: int| 0 <= i < CAP ==> #[trigger] self.used@.contains(i) || self.free_list@.contains(i),
            forall|i: int| #[trigger] self.used@.contains(i) ==> 0 <= i < CAP,
            self.free_head as int == (if self.free_list@.len() == 0 {
                NULL_NODE as int
            } else {
                self.free_list@[0]
            }),
            forall|k: int|
                0 <= k < self.free_list@.len() ==> (#[trigger] self.nodes@[self.free_list@[k]]).left as int == (if k
                    + 1 < self.free_list@.len() {
                    self.free_list@[k + 1]
                } else {
                    NULL_NODE as int
                }),
        ensures
            self.free_list_wf(),
    {
        reveal(StaticAABBTree::free_list_wf);
        assert forall|k: int| 0 <= k < self.free_list@.len() implies self.nodes@[#[trigger] self.free_list@[k]].left as int == (if k
            + 1 < self.free_list@.len() {
            self.free_list@[k + 1]
        } else {
            NULL_NODE as int
        }) by {
            assert(self.nodes@[self.free_list@[k]] == self.nodes@[self.free_list@[k]]);
        }
    }

    #[verifier::spinoff_prover]
    #[verifier::rlimit(30)]
    proof fn lemma_detach_free_list(&self, old: &Self, leaf: int)
        requires
            self.is_detached(old, leaf),
        ensures
            self.free_list_wf(),
            CAP <= NULL_NODE,
            self.nodes@.len() == CAP,
            self.down@.len() == CAP,
            self.up@.len() == CAP,
    {
        self.lemma_detach_facts(old, leaf);
        old.lemma_free_list_elim();
        let p = old.nodes@[leaf].parent as int;
        let pn = old.nodes@[p];
        let s = (if pn.left as int == leaf { pn.right } else { pn.left }) as int;
        let g = pn.parent as int;
        let fl = old.free_list@;
        let nfl = self.free_list@;
        assert(nfl[0] == p && nfl[1] == leaf);
        assert forall|k: int| 0 <= k < nfl.len() implies 0 <= #[trigger] nfl[k] < CAP
            && !self.used@.contains(nfl[k]) by {
            if k >= 2 {
                assert(nfl[k] == fl[k - 2]);
            }
        }
        assert forall|i: int| 0 <= i < CAP implies #[trigger] self.used@.contains(i) || nfl.contains(i) by {
            if i == leaf {
            } else if i == p {
            } else if !old.used@.contains(i) {
                assert(fl.contains(i));
                let k = choose|k: int| 0 <= k < fl.len() && fl[k] == i;
                assert(nfl[k + 2] == i);
            }
        }
        assert forall|k: int| 0 <= k < nfl.len() implies (#[trigger] self.nodes@[nfl[k]]).left as int == (if k
            + 1 < nfl.len() {
            nfl[k + 1]
        } else {
            NULL_NODE as int
        }) by {
            if k >= 2 {
                assert(nfl[k] == fl[k - 2]);
                assert(old.nodes@[fl[k - 2]] == old.nodes@[fl[k - 2]]);
                assert(fl[k - 2] != leaf && fl[k - 2] != p && fl[k - 2] != s && fl[k - 2] != g);
                if k + 1 < nfl.len() {
                    assert(nfl[k + 1] == fl[k - 1]);
                }
            } else if k == 1 {
                if fl.len() > 0 {
                    assert(nfl[2] == fl[0]);
                }
            }
        }
        assert forall|i: int| #[trigger] self.used@.contains(i) implies 0 <= i < CAP by {}
        assert forall|a: int, b: int| 0 <= a < b < nfl.len() implies nfl[a] != nfl[b] by {
            if a >= 2 {
                assert(nfl[a] == fl[a - 2] && nfl[b] == fl[b - 2]);
            } else if b >= 2 {
                assert(nfl[b] == fl[b - 2]);
            }
        }
        assert(nfl.no_duplicates());
        self.lemma_free_list_intro();
    }

    #[verifier::spinoff_prover]
    #[verifier::rlimit(100)]
    proof fn lemma_detach_slots(&self, old: &Self, leaf: int)
        requires
            self.is_detached(old, leaf),
        ensures
            forall|i: int| #[trigger] self.used@.contains(i) ==> self.slot_wf(i),
            self.root != NULL_NODE,
            self.used@.contains(self.root as int),
    {
        reveal(StaticAABBTree::slot_wf);
        self.lemma_detach_facts(old, leaf);
        let p = old.nodes@[leaf].parent as int;
        let pn = old.nodes@[p];
        let s = (if pn.left as int == leaf { pn.right } else { pn.left }) as int;
        let g = pn.parent as int;
        assert forall|i: int| #[trigger] self.used@.contains(i) implies self.slot_wf(i) by {
            old.lemma_slot(i);
            let n = old.nodes@[i];
            if n.left != NULL_NODE {
                old.lemma_slot(n.left as int);
                old.lemma_slot(n.right as int);
            }
            if i != old.root {
                old.lemma_slot(n.parent as int);
            }
            assert(self.nodes@[i].rect == n.rect);
        }
    }

    #[verifier::spinoff_prover]
    #[verifier::rlimit(60)]
    proof fn lemma_detach_bounds(&self, old: &Self, leaf: int)
        requires
            self.is_detached(old, leaf),
        ensures
            forall|i: int| #[trigger] self.used@.contains(i) ==> self.bounds_children(i)
                || i == old.nodes@[old.nodes@[leaf].parent as int].parent as int,
    {
        reveal(StaticAABBTree::bounds_children);
        reveal(StaticAABBTree::unites_children);
        self.lemma_detach_facts(old, leaf);
        let p = old.nodes@[leaf].parent as int;
        let pn = old.nodes@[p];
        let g = pn.parent as int;
        assert forall|i: int| #[trigger] self.used@.contains(i) implies self.bounds_children(i) || i == g by {
            assert(old.bounds_children(i));
            old.lemma_slot(i);
            let n = old.nodes@[i];
            if n.left != NULL_NODE {
                old.lemma_slot(n.left as int);
                old.lemma_slot(n.right as int);
            }
        }
    }

    #[verifier::spinoff_prover]
    #[verifier::rlimit(40)]
    proof fn lemma_detach_leaves(&self, old: &Self, leaf: int)
        requires
            self.is_detached(old, leaf),
        ensures
            self.leaves() == old.leaves().remove(leaf),
            self.count as int == self.leaves().dom().len(),
    {
        self.lemma_detach_facts(old, leaf);
        let p = old.nodes@[leaf].parent as int;
        old.lemma_leaves_finite();
        assert forall|i: int| #[trigger] self.leaves().dom().contains(i) <==> old.leaves().remove(
            leaf,
        ).dom().contains(i) by {
            if old.used@.contains(i) {
                old.lemma_slot(i);
            }
        }
        assert forall|i: int| #[trigger] self.leaves().dom().contains(i) implies self.leaves()[i]
            == old.leaves()[i] by {
            old.lemma_slot(i);
        }
        assert(self.leaves() =~= old.leaves().remove(leaf));
    }
}

impl<const CAP: usize> StaticAABBTree<CAP> {
    /// Unlinks the leaf `leaf_idx` and returns its slot to the free list.
    /// When the leaf has a parent, the parent's slot is freed as well and
    /// the leaf's sibling takes the parent's place.
    #[verifier::rlimit(40)]
    fn remove_leaf(&mut self, leaf_idx: u16)
        requires
            old(self).wf(),
            old(self).is_leaf_slot(leaf_idx as int),
        ensures
            final(self).wf(),
            final(self).leaves() == old(self).leaves().remove(leaf_idx as int),
            final(self).free_slots() == old(self).free_slots() + (if final(self).leaves().dom().len()
                == 0 {
                1nat
            } else {
                2nat
            }),
            final(self).root_rect() matches Some(b) ==> (old(self).root_rect() matches Some(o) && o.encloses(b)),
    {
        let ghost old_self = *self;
        let ghost leaf = leaf_idx as int;
        let ghost fl = self.free_list@;
        proof {
            old_self.lemma_slot(leaf);
            old_self.lemma_free_list_elim();
            old_self.lemma_leaves_finite();
            assert(old_self.leaves().dom().contains(leaf));
            assert(self.count >= 1);
        }
        let parent_idx = self.nodes[leaf_idx as usize].parent;
        let head = self.free_head;
        self.nodes[leaf_idx as usize].left = head;
        self.free_head = leaf_idx;
        self.count = self.count - 1;
        if parent_idx == NULL_NODE {
            self.root = NULL_NODE;
            self.used = Ghost(Set::empty());
            self.free_list = Ghost(seq![leaf] + fl);
            proof {
                assert forall|m: int| #[trigger] old_self.used@.contains(m) implies m == leaf by {
                    old_self.lemma_in_root(m);
                    old_self.lemma_sub_leaf(m, leaf);
                }
                assert(old_self.leaves().dom() =~= set![leaf]);
                assert(self.leaves() =~= old_self.leaves().remove(leaf));
                let nfl = self.free_list@;
                assert(nfl[0] == leaf);
                assert forall|k: int| 0 <= k < nfl.len() implies 0 <= #[trigger] nfl[k] < CAP
                    && !self.used@.contains(nfl[k]) by {
                    if k >= 1 {
                        assert(nfl[k] == fl[k - 1]);
                    }
                }
                assert forall|i: int| 0 <= i < CAP implies #[trigger] self.used@.contains(i) || nfl.contains(i) by {
                    if i != leaf && !old_self.used@.contains(i) {
                        assert(fl.contains(i));
                        let k = choose|k: int| 0 <= k < fl.len() && fl[k] == i;
                        assert(nfl[k + 1] == i);
                    }
                }
                assert forall|k: int| 0 <= k < nfl.len() implies (#[trigger] self.nodes@[nfl[k]]).left as int == (if k
                    + 1 < nfl.len() {
                    nfl[k + 1]
                } else {
                    NULL_NODE as int
                }) by {
                    if k >= 1 {
                        assert(nfl[k] == fl[k - 1]);
                        assert(old_self.nodes@[fl[k - 1]] == old_self.nodes@[fl[k - 1]]);
                        if k + 1 < nfl.len() {
                            assert(nfl[k + 1] == fl[k]);
                        }
                    } else if fl.len() > 0 {
                        assert(nfl[1] == fl[0]);
                    }
                }
                assert forall|a: int, b: int| 0 <= a < b < nfl.len() implies nfl[a] != nfl[b] by {
                    if a >= 1 {
                        assert(nfl[a] == fl[a - 1] && nfl[b] == fl[b - 1]);
                    } else {
                        assert(nfl[b] == fl[b - 1]);
                    }
                }
                assert(nfl.no_duplicates());
                self.lemma_free_list_intro();
                assert(self.used@ =~= Set::<int>::empty());
                assert(self.leaves().dom() =~= Set::<int>::empty());
                assert(self.size_wf()) by {
                    reveal(StaticAABBTree::size_wf);
                    assert(old_self.size_wf());
                    assert(old_self.used@ =~= set![leaf]);
                    assert(old_self.used@.len() == 1);
                }
            }
            return;
        }
        let ghost bound = old_self.nodes@[old_self.root as int].rect;
        let parent = self.nodes[parent_idx as usize];
        let sibling_idx = if parent.left == leaf_idx {
            parent.right
        } else {
            parent.left
        };
        let grandparent_idx = parent.parent;
        proof {
            old_self.lemma_slot(parent_idx as int);
            old_self.lemma_slot(sibling_idx as int);
            if grandparent_idx != NULL_NODE {
                old_self.lemma_slot(grandparent_idx as int);
            }
        }
        self.nodes[sibling_idx as usize].parent = grandparent_idx;
        if grandparent_idx == NULL_NODE {
            self.root = sibling_idx;
        } else if self.nodes[grandparent_idx as usize].left == parent_idx {
            self.nodes[grandparent_idx as usize].left = sibling_idx;
        } else {
            self.nodes[grandparent_idx as usize].right = sibling_idx;
        }
        let head2 = self.free_head;
        self.nodes[parent_idx as usize].left = head2;
        self.free_head = parent_idx;
        self.used = Ghost(old_self.used@.remove(leaf).remove(parent_idx as int));
        self.free_list = Ghost(seq![parent_idx as int, leaf] + fl);
        proof {
            assert(self.nodes@ =~= old_self.detach_nodes(leaf)) by {
                reveal(StaticAABBTree::detach_nodes);
            }
            assert(self.is_detached(&old_self, leaf));
            self.lemma_detach_facts(&old_self, leaf);
            self.lemma_detach_free_list(&old_self, leaf);
            self.lemma_detach_slots(&old_self, leaf);
            self.lemma_detach_bounds(&old_self, leaf);
            self.lemma_detach_leaves(&old_self, leaf);
            old_self.lemma_slot(old_self.root as int);
            assert(self.size_wf()) by {
                reveal(StaticAABBTree::size_wf);
                self.lemma_detach_facts(&old_self, leaf);
                assert(old_self.size_wf());
                let p = parent_idx as int;
                let sb = sibling_idx as int;
                let three = set![leaf, p, sb];
                assert(three.len() == 3);
                assert(three.subset_of(old_self.used@));
                vstd::set_lib::lemma_len_subset(three, old_self.used@);
                assert(old_self.used@.remove(leaf).len() + 1 == old_self.used@.len());
                assert(old_self.used@.remove(leaf).remove(p).len() + 1 == old_self.used@.remove(leaf).len());
            }
            assert forall|i: int| #[trigger] self.used@.contains(i) implies bound.encloses(
                self.nodes@[i].rect,
            ) by {
                old_self.lemma_root_encloses(i);
                old_self.lemma_slot(i);
            }
            assert(self.shape_wf());
        }
        self.fix_upwards(grandparent_idx, Ghost(bound));
        proof {
            self.lemma_empty_iff_no_root();
            if self.root != NULL_NODE {
                assert(self.used@.contains(self.root as int));
            }
        }
    }
}

/// The area that `bounds` gains when grown to cover `rect`.
pub open spec fn growth(bounds: Rectangle, rect: Rectangle) -> int {
    bounds.spec_union(rect).size.spec_area() - bounds.size.spec_area()
}

/// Whether `b` encloses every rectangle of `rects`.
pub open spec fn encloses_all(b: Rectangle, rects: Map<int, Rectangle>) -> bool {
    forall|k: int| #[trigger] rects.dom().contains(k) ==> b.encloses(rects[k])
}

/// The free slots gained by removing `removed` leaves: two each (the leaf
/// and its parent), less one when the last leaf of the tree went, as it had
/// no parent.
pub open spec fn drained_slots(removed: nat, emptied: bool) -> nat {
    if removed > 0 && emptied {
        (2 * removed - 1) as nat
    } else {
        2 * removed
    }
}

/// `found` lists, one for one and in the same order, the rectangles that
/// `leaves` holds under the distinct slots `ids`.
pub open spec fn lists_leaves(found: Seq<Rectangle>, ids: Seq<int>, leaves: Map<int, Rectangle>) -> bool {
    &&& ids.len() == found.len()
    &&& ids.no_duplicates()
    &&& forall|k: int|
        0 <= k < ids.len() ==> leaves.dom().contains(#[trigger] ids[k]) && found[k] == leaves[ids[k]]
}

impl<const CAP: usize> StaticAABBTree<CAP> {
    /// The rectangles of the leaves that `query` picks, each once.
    fn collect(&self, target: &Rectangle, query: Query) -> (r: Vec<Rectangle>)
        requires
            self.wf(),
            target.edges_fit(),
        ensures
            exists|ids: Seq<int>|
                {
                    &&& lists_leaves(r@, ids, self.leaves())
                    &&& forall|k: int| 0 <= k < ids.len() ==> query_matches(query, self.leaves()[#[trigger] ids[k]], *target)
                    &&& forall|m: int|
                        #[trigger] self.leaves().dom().contains(m) && query_matches(query, self.leaves()[m], *target)
                            ==> ids.contains(m)
                },
    {
        let found = self.search(target, query, false);
        let mut out: Vec<Rectangle> = Vec::new();
        let mut i: usize = 0;
        while i < found.len()
            invariant
                self.wf(),
                i <= found.len(),
                out.len() == i,
                forall|k: int|
                    0 <= k < found.len() ==> self.is_leaf_slot(#[trigger] found@[k] as int)
                        && query_matches(query, self.nodes@[found@[k] as int].rect, *target),
                forall|k: int| 0 <= k < i ==> out@[k] == self.nodes@[found@[k] as int].rect,
            decreases found.len() - i,
        {
            let idx = found[i];
            proof {
                assert(self.is_leaf_slot(found@[i as int] as int));
                self.lemma_slot(idx as int);
            }
            out.push(self.nodes[idx as usize].rect);
            i = i + 1;
        }
        let ghost ids = found@.map_values(|v: u16| v as int);
        proof {
            assert forall|a: int, b: int| 0 <= a < b < ids.len() implies ids[a] != ids[b] by {
                assert(found@[a] != found@[b]);
            }
            assert(lists_leaves(out@, ids, self.leaves()));
            assert forall|m: int|
                #[trigger] self.leaves().dom().contains(m) && query_matches(query, self.leaves()[m], *target)
                    implies ids.contains(m) by {
                let k = choose|k: int| 0 <= k < found.len() && #[trigger] found@[k] as int == m;
                assert(ids[k] == m);
            }
        }
        out
    }

    /// The rectangles in the tree that overlap `target`, each once.
    ///
    /// Every such rectangle is listed.
    pub fn query_intersects(&self, target: &Rectangle) -> (r: Vec<Rectangle>)
        requires
            self.wf(),
            target.edges_fit(),
        ensures
            exists|ids: Seq<int>|
                {
                    &&& lists_leaves(r@, ids, self.leaves())
                    &&& forall|k: int| 0 <= k < ids.len() ==> leaf_matches_intersects(self.leaves()[#[trigger] ids[k]], *target)
                    &&& forall|m: int|
                        #[trigger] self.leaves().dom().contains(m) && leaf_matches_intersects(self.leaves()[m], *target)
                            ==> ids.contains(m)
                },
    {
        self.collect(target, Query::Intersects)
    }

    /// The rectangles in the tree that overlap `target` and lie inside it,
    /// each once.
    ///
    /// Every such rectangle is listed.
    pub fn query_contains(&self, target: &Rectangle) -> (r: Vec<Rectangle>)
        requires
            self.wf(),
            target.edges_fit(),
        ensures
            exists|ids: Seq<int>|
                {
                    &&& lists_leaves(r@, ids, self.leaves())
                    &&& forall|k: int| 0 <= k < ids.len() ==> leaf_matches_contained(self.leaves()[#[trigger] ids[k]], *target)
                    &&& forall|m: int|
                        #[trigger] self.leaves().dom().contains(m) && leaf_matches_contained(self.leaves()[m], *target)
                            ==> ids.contains(m)
                },
    {
        self.collect(target, Query::Contained)
    }

    /// Removes the leaves that `query` picks, one by one, and returns their
    /// rectangles in the order they were removed.
    fn drain(&mut self, target: &Rectangle, query: Query) -> (r: Vec<Rectangle>)
        requires
            old(self).wf(),
            target.edges_fit(),
        ensures
            final(self).wf(),
            exists|ids: Seq<int>|
                {
                    &&& lists_leaves(r@, ids, old(self).leaves())
                    &&& forall|k: int| 0 <= k < ids.len() ==> query_matches(query, old(self).leaves()[#[trigger] ids[k]], *target)
                    &&& final(self).leaves() == old(self).leaves().remove_keys(ids.to_set())
                    &&& forall|m: int|
                        #[trigger] old(self).leaves().dom().contains(m) && query_matches(query, old(self).leaves()[m], *target)
                            ==> ids.contains(m)
                },
            forall|m: int|
                #[trigger] final(self).leaves().dom().contains(m) ==> !query_matches(query, final(self).leaves()[m], *target),
            final(self).free_slots() == old(self).free_slots() + drained_slots(
                r.len() as nat,
                final(self).leaves().dom().len() == 0,
            ),
            final(self).root_rect() matches Some(b) ==> (old(self).root_rect() matches Some(o) && o.encloses(b)),
    {
        let ghost start = *self;
        let mut out: Vec<Rectangle> = Vec::new();
        let ghost mut ids: Seq<int> = Seq::empty();
        proof {
            assert(self.leaves() =~= start.leaves().remove_keys(ids.to_set()));
            start.lemma_leaves_finite();
        }
        loop
            invariant
                self.wf(),
                start.wf(),
                start.leaves() == old(self).leaves(),
                start.free_slots() == old(self).free_slots(),
                target.edges_fit(),
                lists_leaves(out@, ids, start.leaves()),
                forall|k: int| 0 <= k < ids.len() ==> query_matches(query, start.leaves()[#[trigger] ids[k]], *target),
                self.leaves() == start.leaves().remove_keys(ids.to_set()),
                start.leaves().dom().finite(),
                self.free_slots() == start.free_slots() + drained_slots(
                    ids.len(),
                    self.leaves().dom().len() == 0,
                ),
                self.root_rect() matches Some(b) ==> (start.root_rect() matches Some(o) && o.encloses(b)),
                start.root_rect() == old(self).root_rect(),
            decreases self.leaves().dom().len(),
        {
            let found = self.search(target, query, true);
            if found.len() == 0 {
                proof {
                    assert(self.leaves().dom().subset_of(start.leaves().dom()));
                    vstd::set_lib::lemma_len_subset(self.leaves().dom(), start.leaves().dom());
                    assert forall|m: int|
                        #[trigger] start.leaves().dom().contains(m) && query_matches(query, start.leaves()[m], *target)
                            implies ids.contains(m) by {
                        if !ids.contains(m) {
                            assert(!ids.to_set().contains(m));
                            assert(self.leaves().dom().contains(m));
                            assert(self.leaves()[m] == start.leaves()[m]);
                            assert(self.is_leaf_slot(m));
                            assert(query_matches(query, self.nodes@[m].rect, *target));
                        }
                    }
                    assert(lists_leaves(out@, ids, start.leaves()));
                    assert(self.leaves() == start.leaves().remove_keys(ids.to_set()));
                    assert(start.leaves() == old(self).leaves());
                    assert({
                        &&& lists_leaves(out@, ids, old(self).leaves())
                        &&& forall|k: int| 0 <= k < ids.len() ==> query_matches(query, old(self).leaves()[#[trigger] ids[k]], *target)
                        &&& self.leaves() == old(self).leaves().remove_keys(ids.to_set())
                        &&& forall|m: int|
                            #[trigger] old(self).leaves().dom().contains(m) && query_matches(query, old(self).leaves()[m], *target)
                                ==> ids.contains(m)
                    });
                    assert forall|m: int| #[trigger] self.leaves().dom().contains(m) implies !query_matches(
                        query,
                        self.leaves()[m],
                        *target,
                    ) by {
                        assert(start.leaves().dom().contains(m));
                        assert(!ids.to_set().contains(m));
                        assert(self.leaves()[m] == start.leaves()[m]);
                    }
                }
                return out;
            }
            let leaf = found[0];
            proof {
                assert(self.is_leaf_slot(found@[0] as int));
                self.lemma_slot(leaf as int);
                self.lemma_leaves_finite();
            }
            let rect = self.nodes[leaf as usize].rect;
            let ghost before = self.leaves();
            proof {
                assert(before.dom().contains(leaf as int));
                assert(before.dom().len() > 0);
                assert(rect == before[leaf as int]);
            }
            let ghost pre_root = self.root_rect();
            self.remove_leaf(leaf);
            out.push(rect);
            proof {
                if self.root_rect() is Some {
                    lemma_encloses_transitive(
                        start.root_rect()->0,
                        pre_root->0,
                        self.root_rect()->0,
                        self.root_rect()->0,
                    );
                }
                let li = leaf as int;
                assert(before.dom().contains(li));
                assert(!ids.contains(li));
                let new_ids = ids.push(li);
                assert(new_ids[ids.len() as int] == li);
                assert forall|x: int| new_ids.contains(x) <==> ids.contains(x) || x == li by {
                    if ids.contains(x) {
                        let k = choose|k: int| 0 <= k < ids.len() && ids[k] == x;
                        assert(new_ids[k] == x);
                    }
                    if new_ids.contains(x) {
                        let k = choose|k: int| 0 <= k < new_ids.len() && new_ids[k] == x;
                        if k < ids.len() {
                            assert(ids[k] == x);
                        }
                    }
                }
                assert(new_ids.to_set() =~= ids.to_set().insert(li));
                assert(self.leaves() =~= start.leaves().remove_keys(new_ids.to_set()));
                assert forall|a: int, b: int| 0 <= a < b < new_ids.len() implies new_ids[a] != new_ids[b] by {
                    if b == ids.len() {
                        assert(new_ids[a] == ids[a]);
                    }
                }
                assert(rect == start.leaves()[li]);
                assert forall|k: int|
                    0 <= k < new_ids.len() implies start.leaves().dom().contains(#[trigger] new_ids[k])
                        && out@[k] == start.leaves()[new_ids[k]] by {
                    if k < ids.len() {
                        assert(new_ids[k] == ids[k]);
                    }
                }
                assert(lists_leaves(out@, new_ids, start.leaves()));
                ids = new_ids;
            }
        }
    }

    /// Removes every rectangle that overlaps `target` and lies inside it,
    /// and returns the removed rectangles in the order they were removed.
    ///
    /// No such rectangle is left behind. The new root bounds lie
    /// within the old ones; `lemma_root_least` pins them down.
    pub fn drain_contained(&mut self, target: &Rectangle) -> (r: Vec<Rectangle>)
        requires
            old(self).wf(),
            target.edges_fit(),
        ensures
            final(self).wf(),
            exists|ids: Seq<int>|
                {
                    &&& lists_leaves(r@, ids, old(self).leaves())
                    &&& forall|k: int| 0 <= k < ids.len() ==> leaf_matches_contained(old(self).leaves()[#[trigger] ids[k]], *target)
                    &&& final(self).leaves() == old(self).leaves().remove_keys(ids.to_set())
                    &&& forall|m: int|
                        #[trigger] old(self).leaves().dom().contains(m) && leaf_matches_contained(old(self).leaves()[m], *target)
                            ==> ids.contains(m)
                },
            forall|m: int|
                #[trigger] final(self).leaves().dom().contains(m) ==> !leaf_matches_contained(final(self).leaves()[m], *target),
            final(self).free_slots() == old(self).free_slots() + drained_slots(
                r.len() as nat,
                final(self).leaves().dom().len() == 0,
            ),
            final(self).root_rect() matches Some(b) ==> (old(self).root_rect() matches Some(o) && o.encloses(b)),
    {
        self.drain(target, Query::Contained)
    }

    /// Removes every rectangle that overlaps `target`, and returns the
    /// removed rectangles in the order they were removed.
    ///
    /// No such rectangle is left behind. The new root bounds lie
    /// within the old ones; `lemma_root_least` pins them down.
    pub fn drain_intersects(&mut self, target: &Rectangle) -> (r: Vec<Rectangle>)
        requires
            old(self).wf(),
            target.edges_fit(),
        ensures
            final(self).wf(),
            exists|ids: Seq<int>|
                {
                    &&& lists_leaves(r@, ids, old(self).leaves())
                    &&& forall|k: int| 0 <= k < ids.len() ==> leaf_matches_intersects(old(self).leaves()[#[trigger] ids[k]], *target)
                    &&& final(self).leaves() == old(self).leaves().remove_keys(ids.to_set())
                    &&& forall|m: int|
                        #[trigger] old(self).leaves().dom().contains(m) && leaf_matches_intersects(old(self).leaves()[m], *target)
                            ==> ids.contains(m)
                },
            forall|m: int|
                #[trigger] final(self).leaves().dom().contains(m) ==> !leaf_matches_intersects(final(self).leaves()[m], *target),
            final(self).free_slots() == old(self).free_slots() + drained_slots(
                r.len() as nat,
                final(self).leaves().dom().len() == 0,
            ),
            final(self).root_rect() matches Some(b) ==> (old(self).root_rect() matches Some(o) && o.encloses(b)),
    {
        self.drain(target, Query::Intersects)
    }

    /// Removes one rectangle equal to `rect` and says whether there was one.
    ///
    /// `false` means that the tree holds no such rectangle.
    pub fn remove(&mut self, rect: &Rectangle) -> (r: bool)
        requires
            old(self).wf(),
            rect.edges_fit(),
        ensures
            final(self).wf(),
            r ==> exists|k: int|
                old(self).leaves().dom().contains(k) && old(self).leaves()[k] == *rect
                    && final(self).leaves() == old(self).leaves().remove(k),
            !r ==> final(self).leaves() == old(self).leaves(),
            !r ==> final(self).free_slots() == old(self).free_slots(),
            final(self).root_rect() matches Some(b) ==> (old(self).root_rect() matches Some(o) && o.encloses(b)),
            r ==> final(self).free_slots() == old(self).free_slots() + (if final(self).leaves().dom().len()
                == 0 {
                1nat
            } else {
                2nat
            }),
            (r <==> exists|k: int| #[trigger] old(self).leaves().dom().contains(k) && old(self).leaves()[k] == *rect),
    {
        let found = self.search(rect, Query::Equal, true);
        if found.len() == 0 {
            proof {
                assert forall|k: int| #[trigger] self.leaves().dom().contains(k) implies self.leaves()[k] != *rect by {
                    assert(self.is_leaf_slot(k));
                }
            }
            return false;
        }
        let leaf = found[0];
        proof {
            assert(self.is_leaf_slot(found@[0] as int));
            assert(self.leaves().dom().contains(leaf as int));
            assert(self.leaves()[leaf as int] == *rect);
        }
        self.remove_leaf(leaf);
        true
    }
}

/// How a line of a tree's outline names its slot.
#[derive(Debug, Clone, Copy, PartialEq, Eq, Structural)]
pub enum OutlineLabel {
    /// The first line, for the root
    Root,
    /// An inserted rectangle
    Leaf,
    /// The bounds of two subtrees
    Node,
}

/// One line of the outline of a tree, in the order the lines are printed.
#[derive(Debug, Clone, Copy, PartialEq, Eq, Structural)]
pub struct OutlineRow {
    /// How many slots lie above this one
    pub depth: usize,
    /// Whether this slot is the second child of its parent (or the root)
    pub is_last: bool,
    /// Bit `d % 64` is set when the ancestor at depth `d + 1` is a first
    /// child, so its branch line continues below it
    pub path_mask: u64,
    pub label: OutlineLabel,
    pub rect: Rectangle,
}

/// The bit of the path mask that stands for `depth`.
pub open spec fn depth_bit(depth: usize) -> u64 {
    1u64 << ((depth % 64) as u64)
}

/// The depth of a child, kept within `usize`.
pub open spec fn child_depth(depth: usize) -> usize {
    if depth < usize::MAX { (depth + 1) as usize } else { depth }
}

impl<const CAP: usize> StaticAABBTree<CAP> {
    /// The outline of the tree: nothing for an empty tree, else the outline
    /// of the root's subtree at depth 0.
    pub closed spec fn outline_spec(&self) -> Seq<OutlineRow> {
        if self.root == NULL_NODE {
            Seq::empty()
        } else {
            self.outline_rec(self.root as int, 0, true, 0)
        }
    }

    /// The outline of the subtree of `idx`: its own line, then the outline
    /// of its first child and of its second child.
    spec fn outline_rec(&self, idx: int, depth: usize, is_last: bool, mask: u64) -> Seq<OutlineRow>
        decreases self.down@[idx],
    {
        let n = self.nodes@[idx];
        let label = if depth == 0 {
            OutlineLabel::Root
        } else if n.left == NULL_NODE {
            OutlineLabel::Leaf
        } else {
            OutlineLabel::Node
        };
        let row = OutlineRow { depth, is_last, path_mask: mask, label, rect: n.rect };
        if n.left != NULL_NODE && 0 <= self.down@[n.left as int] < self.down@[idx] && 0
            <= self.down@[n.right as int] < self.down@[idx] {
            seq![row] + self.outline_rec(
                n.left as int,
                child_depth(depth),
                false,
                mask | depth_bit(depth),
            ) + self.outline_rec(n.right as int, child_depth(depth), true, mask & !depth_bit(depth))
        } else {
            seq![row]
        }
    }

    fn outline_from(&self, idx: u16, depth: usize, is_last: bool, mask: u64, out: &mut Vec<OutlineRow>)
        requires
            self.shape_wf(),
            self.used@.contains(idx as int),
        ensures
            final(out)@ == old(out)@ + self.outline_rec(idx as int, depth, is_last, mask),
        decreases self.down@[idx as int],
    {
        proof {
            self.lemma_slot(idx as int);
        }
        let node = self.nodes[idx as usize];
        let leaf = self.is_leaf(idx);
        let label = if depth == 0 {
            OutlineLabel::Root
        } else if leaf {
            OutlineLabel::Leaf
        } else {
            OutlineLabel::Node
        };
        let ghost before = out@;
        out.push(OutlineRow { depth, is_last, path_mask: mask, label, rect: node.rect });
        if !leaf {
            let bit: u64 = 1u64 << ((depth % 64) as u64);
            let next: usize = if depth < usize::MAX { depth + 1 } else { depth };
            let ghost mid0 = out@;
            self.outline_from(node.left, next, false, mask | bit, out);
            let ghost mid1 = out@;
            self.outline_from(node.right, next, true, mask & !bit, out);
            proof {
                let row = OutlineRow { depth, is_last, path_mask: mask, label, rect: node.rect };
                assert(mid0 == before.push(row));
                assert(out@ =~= before + self.outline_rec(idx as int, depth, is_last, mask));
            }
        } else {
            proof {
                let row = OutlineRow { depth, is_last, path_mask: mask, label, rect: node.rect };
                assert(out@ =~= before + self.outline_rec(idx as int, depth, is_last, mask));
            }
        }
    }

    /// The lines that draw the tree, root first, each slot followed by the
    /// outline of its first child and then of its second; empty for an
    /// empty tree.
    pub fn outline(&self) -> (r: Vec<OutlineRow>)
        requires
            self.wf(),
        ensures
            r@ == self.outline_spec(),
            (r.len() == 0) == (self.root_rect() is None),
            r.len() > 0 ==> r[0].label == OutlineLabel::Root && r[0].depth == 0 && r[0].is_last
                && r[0].path_mask == 0 && r[0].rect == self.root_rect()->0,
    {
        let mut out: Vec<OutlineRow> = Vec::new();
        if self.root != NULL_NODE {
            proof {
                self.lemma_slot(self.root as int);
                reveal(StaticAABBTree::free_list_wf);
            }
            self.outline_from(self.root, 0, true, 0, &mut out);
            proof {
                assert(out@ =~= self.outline_rec(self.root as int, 0, true, 0));
                let n = self.nodes@[self.root as int];
                let row = OutlineRow { depth: 0, is_last: true, path_mask: 0, label: OutlineLabel::Root, rect: n.rect };
                let rest = self.outline_rec(self.root as int, 0, true, 0);
                if n.left != NULL_NODE && 0 <= self.down@[n.left as int] < self.down@[self.root as int] && 0
                    <= self.down@[n.right as int] < self.down@[self.root as int] {
                    let a = self.outline_rec(n.left as int, child_depth(0), false, 0 | depth_bit(0));
                    let b = self.outline_rec(n.right as int, child_depth(0), true, 0 & !depth_bit(0));
                    assert(rest == seq![row] + a + b);
                    assert((seq![row] + a + b)[0] == row);
                } else {
                    assert(rest == seq![row]);
                }
            }
        }
        out
    }
}

} // verus!
