use vstd::prelude::*;

use crate::primitives::interpolate::Interpolate;
use crate::primitives::point::{fits_i32, Point};
use crate::primitives::size::Size;

verus! {

/// The relationship of one rectangle to another.
#[derive(Debug, Clone, Copy, PartialEq, Eq, Structural)]
pub enum Intersection {
    /// The other rectangle lies completely inside.
    Contains,
    /// The rectangles share some area, but the other is not inside.
    Overlaps,
    /// The rectangles do not share any area.
    NonIntersecting,
}

/// An axis-aligned rectangle given by its top-left corner and its size.
#[derive(Debug, Clone, Copy, PartialEq, Eq, Structural)]
pub struct Rectangle {
    pub origin: Point,
    pub size: Size,
}

/// `|a - b|`
pub open spec fn abs_diff(a: int, b: int) -> int {
    if a >= b { a - b } else { b - a }
}

pub open spec fn min_int(a: int, b: int) -> int {
    if a <= b { a } else { b }
}

pub open spec fn max_int(a: int, b: int) -> int {
    if a >= b { a } else { b }
}

pub(crate) fn abs_diff_i32(a: i32, b: i32) -> (r: u32)
    ensures
        r == abs_diff(a as int, b as int),
{
    if a >= b {
        (a as i64 - b as i64) as u32
    } else {
        (b as i64 - a as i64) as u32
    }
}

impl Rectangle {
    /// Left edge.
    pub open spec fn left(self) -> int {
        self.origin.x as int
    }

    /// Top edge.
    pub open spec fn top(self) -> int {
        self.origin.y as int
    }

    /// Right edge, with the width converted to `i32` the way `as` converts it.
    pub open spec fn right(self) -> int {
        self.origin.x + (self.size.width as i32)
    }

    /// Bottom edge, with the height converted to `i32` the way `as` converts it.
    pub open spec fn bottom(self) -> int {
        self.origin.y + (self.size.height as i32)
    }

    /// Whether the far edges can be computed in `i32`.
    pub open spec fn edges_fit(self) -> bool {
        fits_i32(self.right()) && fits_i32(self.bottom())
    }

    /// A rectangle whose size is below `i32::MAX` along both axes and whose
    /// far edges fit in `i32`: its edges are exactly origin plus size.
    pub open spec fn is_regular(self) -> bool {
        &&& self.size.width <= i32::MAX
        &&& self.size.height <= i32::MAX
        &&& self.edges_fit()
    }

    pub open spec fn spec_intersects(self, other: Rectangle) -> bool {
        !(self.left() >= other.right() || self.right() <= other.left() || self.top()
            >= other.bottom() || self.bottom() <= other.top())
    }

    pub open spec fn spec_contains(self, point: Point) -> bool {
        self.left() <= point.x && self.top() <= point.y && point.x < self.right() && point.y
            < self.bottom()
    }

    /// Whether `other` lies completely inside `self`.
    pub open spec fn encloses(self, other: Rectangle) -> bool {
        self.left() <= other.left() && self.top() <= other.top() && other.right()
            <= self.right() && other.bottom() <= self.bottom()
    }

    pub open spec fn relation(self, other: Rectangle) -> Intersection {
        if self.encloses(other) {
            Intersection::Contains
        } else if self.left() < other.right() && self.right() > other.left() && self.top()
            < other.bottom() && self.bottom() > other.top() {
            Intersection::Overlaps
        } else {
            Intersection::NonIntersecting
        }
    }

    /// Whether the union of the two rectangles can be computed without overflow.
    pub open spec fn can_union(self, other: Rectangle) -> bool {
        &&& self.edges_fit()
        &&& other.edges_fit()
        &&& fits_i32(max_int(self.right(), other.right()) - min_int(self.left(), other.left()))
        &&& fits_i32(max_int(self.bottom(), other.bottom()) - min_int(self.top(), other.top()))
    }

    pub open spec fn spec_union(self, other: Rectangle) -> Rectangle {
        let x1 = min_int(self.left(), other.left());
        let y1 = min_int(self.top(), other.top());
        let x2 = max_int(self.right(), other.right());
        let y2 = max_int(self.bottom(), other.bottom());
        Rectangle {
            origin: Point { x: x1 as i32, y: y1 as i32 },
            size: Size { width: (x2 - x1) as u32, height: (y2 - y1) as u32 },
        }
    }

    pub open spec fn spec_intersection(self, other: Rectangle) -> Option<Rectangle> {
        if !self.spec_intersects(other) {
            None
        } else {
            let x1 = max_int(self.left(), other.left());
            let y1 = max_int(self.top(), other.top());
            let x2 = min_int(self.right(), other.right());
            let y2 = min_int(self.bottom(), other.bottom());
            Some(
                Rectangle {
                    origin: Point { x: x1 as i32, y: y1 as i32 },
                    size: Size { width: (x2 - x1) as u32, height: (y2 - y1) as u32 },
                },
            )
        }
    }

    pub open spec fn spec_from_bounds(min_x: i32, min_y: i32, max_x: i32, max_y: i32) -> Rectangle {
        Rectangle {
            origin: Point {
                x: if min_x < max_x { min_x } else { max_x },
                y: if min_y < max_y { min_y } else { max_y },
            },
            size: Size {
                width: abs_diff(max_x as int, min_x as int) as u32,
                height: abs_diff(max_y as int, min_y as int) as u32,
            },
        }
    }

    pub fn new(origin: Point, size: Size) -> (r: Self)
        ensures
            r.origin == origin,
            r.size == size,
    {
        Self { origin, size }
    }

    /// The rectangle spanning the two corners, in either order.
    pub fn from_bounds(min_x: i32, min_y: i32, max_x: i32, max_y: i32) -> (r: Self)
        ensures
            r == Self::spec_from_bounds(min_x, min_y, max_x, max_y),
    {
        Self::new(
            Point::new(
                if min_x < max_x { min_x } else { max_x },
                if min_y < max_y { min_y } else { max_y },
            ),
            Size::new(abs_diff_i32(max_x, min_x), abs_diff_i32(max_y, min_y)),
        )
    }

    /// The number of pixels covered, saturating at `u32::MAX`.
    pub fn area(&self) -> (r: u32)
        ensures
            r == self.size.spec_area(),
    {
        self.size.area()
    }

    pub fn intersects(&self, other: &Self) -> (r: bool)
        requires
            self.edges_fit(),
            other.edges_fit(),
        ensures
            r == self.spec_intersects(*other),
    {
        let self_right = self.origin.x + self.size.width as i32;
        let self_bottom = self.origin.y + self.size.height as i32;
        let other_right = other.origin.x + other.size.width as i32;
        let other_bottom = other.origin.y + other.size.height as i32;

        !(self.origin.x >= other_right || self_right <= other.origin.x || self.origin.y
            >= other_bottom || self_bottom <= other.origin.y)
    }

    pub fn contains(&self, point: &Point) -> (r: bool)
        requires
            self.edges_fit(),
        ensures
            r == self.spec_contains(*point),
    {
        self.origin.x <= point.x && self.origin.y <= point.y && point.x < (self.origin.x
            + self.size.width as i32) && point.y < (self.origin.y + self.size.height as i32)
    }

    /// Whether `other` lies completely inside `self`.
    pub fn contains_rect(&self, other: &Self) -> (r: bool)
        requires
            self.edges_fit(),
            other.edges_fit(),
        ensures
            r == self.encloses(*other),
    {
        self.intersection_with(other) == Intersection::Contains
    }

    /// Determines the relationship of `other` relative to `self`.
    ///
    /// Returns:
    /// - [`Intersection::Contains`] if `other` is completely inside `self`
    /// - [`Intersection::Overlaps`] if `other` partially overlaps with `self`
    /// - [`Intersection::NonIntersecting`] if `other` does not intersect with `self`
    pub fn intersection_with(&self, other: &Self) -> (r: Intersection)
        requires
            self.edges_fit(),
            other.edges_fit(),
        ensures
            r == self.relation(*other),
    {
        let self_right = self.origin.x + self.size.width as i32;
        let self_bottom = self.origin.y + self.size.height as i32;
        let other_right = other.origin.x + other.size.width as i32;
        let other_bottom = other.origin.y + other.size.height as i32;

        // Check if other is completely contained within self
        let contained = self.origin.x <= other.origin.x && self.origin.y <= other.origin.y
            && other_right <= self_right && other_bottom <= self_bottom;

        if contained {
            Intersection::Contains
        } else if self.origin.x < other_right && self_right > other.origin.x && self.origin.y
            < other_bottom && self_bottom > other.origin.y {
            Intersection::Overlaps
        } else {
            Intersection::NonIntersecting
        }
    }

    /// The overlapping area of the two rectangles, if they overlap.
    pub fn intersection(&self, other: &Self) -> (r: Option<Self>)
        requires
            self.edges_fit(),
            other.edges_fit(),
        ensures
            r == self.spec_intersection(*other),
    {
        if !self.intersects(other) {
            return None;
        }
        let self_right = self.origin.x + self.size.width as i32;
        let self_bottom = self.origin.y + self.size.height as i32;
        let other_right = other.origin.x + other.size.width as i32;
        let other_bottom = other.origin.y + other.size.height as i32;

        let x1 = if self.origin.x >= other.origin.x { self.origin.x } else { other.origin.x };
        let y1 = if self.origin.y >= other.origin.y { self.origin.y } else { other.origin.y };
        let x2 = if self_right <= other_right { self_right } else { other_right };
        let y2 = if self_bottom <= other_bottom { self_bottom } else { other_bottom };

        Some(
            Self {
                origin: Point::new(x1, y1),
                size: Size::new((x2 - x1) as u32, (y2 - y1) as u32),
            },
        )
    }

    /// The smallest rectangle covering both rectangles.
    pub fn union(&self, other: &Self) -> (r: Self)
        requires
            self.can_union(*other),
        ensures
            r == self.spec_union(*other),
    {
        let self_right = self.origin.x + self.size.width as i32;
        let self_bottom = self.origin.y + self.size.height as i32;
        let other_right = other.origin.x + other.size.width as i32;
        let other_bottom = other.origin.y + other.size.height as i32;

        let x1 = if self.origin.x <= other.origin.x { self.origin.x } else { other.origin.x };
        let y1 = if self.origin.y <= other.origin.y { self.origin.y } else { other.origin.y };
        let x2 = if self_right >= other_right { self_right } else { other_right };
        let y2 = if self_bottom >= other_bottom { self_bottom } else { other_bottom };

        Self {
            origin: Point::new(x1, y1),
            size: Size::new((x2 - x1) as u32, (y2 - y1) as u32),
        }
    }

    pub fn x_end(&self) -> (r: i32)
        requires
            fits_i32(self.right()),
        ensures
            r == self.right(),
    {
        self.origin.x + self.size.width as i32
    }

    pub fn y_end(&self) -> (r: i32)
        requires
            fits_i32(self.bottom()),
        ensures
            r == self.bottom(),
    {
        self.origin.y + self.size.height as i32
    }

    /// Returns a new rectangle offset by the given point
    pub fn with_offset(self, offset: Point) -> (r: Self)
        requires
            self.origin.can_add(offset),
        ensures
            r.origin == self.origin.plus(offset),
            r.size == self.size,
    {
        let mut s = self;
        s.origin = s.origin + offset;
        s
    }

    /// Offsets the rectangle by the given point
    pub fn offset(&mut self, offset: Point)
        requires
            old(self).origin.can_add(offset),
        ensures
            final(self).origin == old(self).origin.plus(offset),
            final(self).size == old(self).size,
    {
        self.origin = self.origin + offset;
    }

    /// The smallest rectangle enclosing this shape: the rectangle itself.
    pub fn bounding_box(&self) -> (r: Rectangle)
        ensures
            r == *self,
    {
        *self
    }

    /// This shape as a plain rectangle, which it always is.
    pub fn as_rect(&self) -> (r: Option<Rectangle>)
        ensures
            r == Some(*self),
    {
        Some(*self)
    }
}

impl Default for Rectangle {
    fn default() -> (r: Self)
        ensures
            r.origin == (Point { x: 0, y: 0 }),
            r.size == (Size { width: 0, height: 0 }),
    {
        Self { origin: Point::new(0, 0), size: Size::new(0, 0) }
    }
}

impl Interpolate for Rectangle {
    open spec fn interpolate_ok(from: Self, to: Self, amount: u8) -> bool {
        Point::interpolate_ok(from.origin, to.origin, amount) && Size::interpolate_ok(
            from.size,
            to.size,
            amount,
        )
    }

    open spec fn interpolation(from: Self, to: Self, amount: u8) -> Self {
        Rectangle {
            origin: Point::interpolation(from.origin, to.origin, amount),
            size: Size::interpolation(from.size, to.size, amount),
        }
    }

    fn interpolate(from: Self, to: Self, amount: u8) -> (r: Self) {
        Self {
            origin: Point::interpolate(from.origin, to.origin, amount),
            size: Size::interpolate(from.size, to.size, amount),
        }
    }
}

/// Union does not depend on the order of its arguments.
pub proof fn lemma_union_commutative(a: Rectangle, b: Rectangle)
    ensures
        a.spec_union(b) == b.spec_union(a),
        a.can_union(b) == b.can_union(a),
{
}

/// Intersection does not depend on the order of its arguments, and neither
/// does whether two rectangles intersect.
pub proof fn lemma_intersection_commutative(a: Rectangle, b: Rectangle)
    ensures
        a.spec_intersects(b) == b.spec_intersects(a),
        a.spec_intersection(b) == b.spec_intersection(a),
{
}

/// The union of two regular rectangles covers both of them, and it is
/// regular itself when it can be computed.
pub proof fn lemma_union_covers(a: Rectangle, b: Rectangle)
    requires
        a.is_regular(),
        b.is_regular(),
        a.can_union(b),
    ensures
        a.spec_union(b).encloses(a),
        a.spec_union(b).encloses(b),
        a.spec_union(b).is_regular(),
{
    let u = a.spec_union(b);
    let x1 = min_int(a.left(), b.left());
    let x2 = max_int(a.right(), b.right());
    let y1 = min_int(a.top(), b.top());
    let y2 = max_int(a.bottom(), b.bottom());
    assert(u.size.width == x2 - x1);
    assert((u.size.width as i32) == x2 - x1);
    assert(u.size.height == y2 - y1);
    assert((u.size.height as i32) == y2 - y1);
}

/// The intersection of two regular rectangles lies inside both of them.
pub proof fn lemma_intersection_inside(a: Rectangle, b: Rectangle)
    requires
        a.is_regular(),
        b.is_regular(),
        a.spec_intersects(b),
    ensures
        a.encloses(a.spec_intersection(b).unwrap()),
        b.encloses(a.spec_intersection(b).unwrap()),
{
    let i = a.spec_intersection(b).unwrap();
    let x1 = max_int(a.left(), b.left());
    let x2 = min_int(a.right(), b.right());
    let y1 = max_int(a.top(), b.top());
    let y2 = min_int(a.bottom(), b.bottom());
    assert(i.size.width == x2 - x1);
    assert((i.size.width as i32) == x2 - x1);
    assert(i.size.height == y2 - y1);
    assert((i.size.height as i32) == y2 - y1);
}

/// The union is the smallest rectangle covering both: any regular rectangle
/// that encloses two regular rectangles encloses their union, which can then
/// always be computed.
pub proof fn lemma_union_least(a: Rectangle, b: Rectangle, bound: Rectangle)
    requires
        a.is_regular(),
        b.is_regular(),
        bound.is_regular(),
        bound.encloses(a),
        bound.encloses(b),
    ensures
        a.can_union(b),
        bound.encloses(a.spec_union(b)),
{
    let u = a.spec_union(b);
    let x1 = min_int(a.left(), b.left());
    let x2 = max_int(a.right(), b.right());
    let y1 = min_int(a.top(), b.top());
    let y2 = max_int(a.bottom(), b.bottom());
    assert(u.size.width == x2 - x1);
    assert((u.size.width as i32) == x2 - x1);
    assert(u.size.height == y2 - y1);
    assert((u.size.height as i32) == y2 - y1);
}

/// Enclosure is transitive, and a rectangle that meets an enclosed one meets
/// the enclosing one too.
pub proof fn lemma_encloses_transitive(a: Rectangle, b: Rectangle, c: Rectangle, t: Rectangle)
    ensures
        a.encloses(b) && b.encloses(c) ==> a.encloses(c),
        a.encloses(b) && b.spec_intersects(t) ==> a.spec_intersects(t),
{
}

/// The relation of two rectangles: `Contains` when the second lies inside
/// the first (even with zero area), otherwise `Overlaps` when they share
/// area and `NonIntersecting` when they do not.
pub proof fn lemma_relation_cases(a: Rectangle, b: Rectangle)
    ensures
        (a.relation(b) == Intersection::Contains) <==> a.encloses(b),
        (a.relation(b) == Intersection::Overlaps) <==> (!a.encloses(b) && a.spec_intersects(b)),
        (a.relation(b) == Intersection::NonIntersecting) <==> (!a.encloses(b) && !a.spec_intersects(b)),
{
}

/// Two regular rectangles that enclose each other are the same rectangle.
pub proof fn lemma_encloses_antisymmetric(a: Rectangle, b: Rectangle)
    requires
        a.is_regular(),
        b.is_regular(),
        a.encloses(b),
        b.encloses(a),
    ensures
        a == b,
{
    assert((a.size.width as i32) == a.size.width);
    assert((b.size.width as i32) == b.size.width);
    assert((a.size.height as i32) == a.size.height);
    assert((b.size.height as i32) == b.size.height);
}

/// A rectangle inside `outer` can be united with anything `outer` can be
/// united with, and the union stays inside the union with `outer`.
pub proof fn lemma_union_inside(inner: Rectangle, outer: Rectangle, other: Rectangle)
    requires
        inner.is_regular(),
        outer.is_regular(),
        other.is_regular(),
        outer.encloses(inner),
        outer.can_union(other),
    ensures
        inner.can_union(other),
        outer.spec_union(other).encloses(inner.spec_union(other)),
        outer.spec_union(other).is_regular(),
        outer.spec_union(other).encloses(other),
        outer.spec_union(other).encloses(outer),
{
    lemma_union_covers(outer, other);
    let u = outer.spec_union(other);
    lemma_union_least(inner, other, u);
}

/// A rectangle built from two corners spans them whichever order they come
/// in: its origin is the smaller coordinate on each axis and its sides are
/// the distances between the corners.
pub proof fn lemma_from_bounds_spans_the_corners(x0: i32, y0: i32, x1: i32, y1: i32)
    ensures
        ({
            let r = Rectangle::spec_from_bounds(x0, y0, x1, y1);
            &&& r.left() == min_int(x0 as int, x1 as int)
            &&& r.top() == min_int(y0 as int, y1 as int)
            &&& r.size.width == max_int(x0 as int, x1 as int) - min_int(x0 as int, x1 as int)
            &&& r.size.height == max_int(y0 as int, y1 as int) - min_int(y0 as int, y1 as int)
            &&& r == Rectangle::spec_from_bounds(x1, y1, x0, y0)
            &&& r.is_regular() ==> r.right() == max_int(x0 as int, x1 as int) && r.bottom() == max_int(
                y0 as int,
                y1 as int,
            )
        }),
{
    let r = Rectangle::spec_from_bounds(x0, y0, x1, y1);
    assert(r.size.width <= u32::MAX);
    if r.size.width <= i32::MAX {
        assert((r.size.width as i32) == r.size.width);
    }
    if r.size.height <= i32::MAX {
        assert((r.size.height as i32) == r.size.height);
    }
}

/// Two rectangles have an intersection exactly when they overlap, and a
/// point lies in the intersection exactly when it lies in both.
pub proof fn lemma_intersection_is_the_overlap(a: Rectangle, b: Rectangle, p: Point)
    requires
        a.is_regular(),
        b.is_regular(),
    ensures
        (a.spec_intersection(b) is Some) == a.spec_intersects(b),
        a.spec_intersection(b) matches Some(i) ==> (i.spec_contains(p) == (a.spec_contains(p)
            && b.spec_contains(p))),
{
    if a.spec_intersects(b) {
        lemma_intersection_inside(a, b);
        let i = a.spec_intersection(b).unwrap();
        let x1 = max_int(a.left(), b.left());
        let x2 = min_int(a.right(), b.right());
        let y1 = max_int(a.top(), b.top());
        let y2 = min_int(a.bottom(), b.bottom());
        assert(i.size.width == x2 - x1);
        assert((i.size.width as i32) == x2 - x1);
        assert(i.size.height == y2 - y1);
        assert((i.size.height as i32) == y2 - y1);
    }
}

/// The area of a size is its width times its height, or the largest `u32`
/// where that does not fit.
pub proof fn lemma_area_is_the_product(size: Size)
    ensures
        size.width * size.height <= u32::MAX ==> size.spec_area() == size.width * size.height,
        size.width * size.height > u32::MAX ==> size.spec_area() == u32::MAX,
{
}

} // verus!
