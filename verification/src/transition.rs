//! Frame and opacity changes applied to views as they appear or disappear.
use vstd::prelude::*;

use crate::primitives::interpolate::{blend, lemma_blend_ends, Interpolate};
use crate::primitives::point::Point;
use crate::primitives::size::Size;

verus! {

/// Frame and opacity transforms to apply when a view is added or removed.
pub trait Transition: Sized {
    /// The offset that `transform` returns.
    spec fn offset_at(&self, direction: Direction, factor: u8, bounds: Size) -> Point;

    /// The opacity that `opacity` returns.
    spec fn opacity_at(&self, direction: Direction, factor: u8) -> u8;

    /// The offset of the transitioning view at the given animation factor.
    fn transform(&self, direction: Direction, factor: u8, bounds: Size) -> (r: Point)
        ensures
            r == self.offset_at(direction, factor, bounds),
    ;

    /// The opacity of the transitioning view at the given animation factor.
    fn opacity(&self, direction: Direction, factor: u8) -> (r: u8)
        ensures
            r == self.opacity_at(direction, factor),
    ;
}

/// Whether a view is appearing or disappearing.
#[derive(Debug, Clone, Copy, PartialEq, Eq, Structural)]
pub enum Direction {
    In,
    Out,
}

/// A transition that fades the view in and out.
#[derive(Debug, Clone, Copy, Default, PartialEq, Eq, Structural)]
pub struct Opacity;

impl Opacity {
    pub fn new() -> (r: Self)
        ensures
            r == Opacity,
    {
        Self
    }
}

impl Transition for Opacity {
    open spec fn offset_at(&self, direction: Direction, factor: u8, bounds: Size) -> Point {
        Point { x: 0, y: 0 }
    }

    /// Fading in, the opacity is the factor; fading out, its complement.
    open spec fn opacity_at(&self, direction: Direction, factor: u8) -> u8 {
        if direction == Direction::In {
            factor
        } else {
            (255 - factor) as u8
        }
    }

    fn transform(&self, _direction: Direction, _factor: u8, _bounds: Size) -> (r: Point) {
        Point::zero()
    }

    fn opacity(&self, direction: Direction, factor: u8) -> (r: u8) {
        if direction == Direction::In {
            factor
        } else {
            255 - factor
        }
    }
}

/// An edge of a view's frame.
#[derive(Debug, Clone, Copy, PartialEq, Eq, Structural)]
pub enum Edge {
    Top,
    Bottom,
    Leading,
    Trailing,
}

/// The offset that places a view just beyond `edge`, taking each extent as
/// `i16` the way an `as` conversion does.
pub open spec fn edge_offset(edge: Edge, bounds: Size) -> Point {
    match edge {
        Edge::Top => Point { x: 0, y: -((bounds.height as i16) as int) as i32 },
        Edge::Bottom => Point { x: 0, y: (bounds.height as i16) as i32 },
        Edge::Leading => Point { x: -((bounds.width as i16) as int) as i32, y: 0 },
        Edge::Trailing => Point { x: (bounds.width as i16) as i32, y: 0 },
    }
}

pub open spec fn negated(p: Point) -> Point {
    Point { x: -(p.x as int) as i32, y: -(p.y as int) as i32 }
}

fn offset_for_edge(edge: Edge, bounds: Size) -> (r: Point)
    ensures
        r == edge_offset(edge, bounds),
        -32768 <= r.x <= 32768,
        -32768 <= r.y <= 32768,
{
    match edge {
        Edge::Top => Point::new(0, -((bounds.height as i16) as i32)),
        Edge::Bottom => Point::new(0, (bounds.height as i16) as i32),
        Edge::Leading => Point::new(-((bounds.width as i16) as i32), 0),
        Edge::Trailing => Point::new((bounds.width as i16) as i32, 0),
    }
}

proof fn lemma_small_blend_fits(p: Point, q: Point, factor: u8)
    requires
        -32768 <= p.x <= 32768,
        -32768 <= p.y <= 32768,
        -32768 <= q.x <= 32768,
        -32768 <= q.y <= 32768,
    ensures
        Point::interpolate_ok(p, q, factor),
{
    let a = factor as int;
    assert(forall|v: int| -32768 <= v <= 32768 ==> -255 * 32768 <= #[trigger] (a * v) <= 255 * 32768) by {
        assert forall|v: int| -32768 <= v <= 32768 implies -255 * 32768 <= #[trigger] (a * v) <= 255 * 32768 by {
            assert(-255 * 32768 <= a * v <= 255 * 32768) by (nonlinear_arith)
                requires 0 <= a <= 255, -32768 <= v <= 32768;
        }
    }
    assert(forall|v: int| -32768 <= v <= 32768 ==> -255 * 32768 <= #[trigger] ((255 - a) * v) <= 255 * 32768) by {
        assert forall|v: int| -32768 <= v <= 32768 implies -255 * 32768 <= #[trigger] ((255 - a) * v) <= 255 * 32768 by {
            assert(-255 * 32768 <= (255 - a) * v <= 255 * 32768) by (nonlinear_arith)
                requires 0 <= a <= 255, -32768 <= v <= 32768;
        }
    }
    assert(a * q.x + (255 - a) * p.x == a * (q.x - p.x) + 255 * p.x) by (nonlinear_arith);
    assert(a * q.y + (255 - a) * p.y == a * (q.y - p.y) + 255 * p.y) by (nonlinear_arith);
    assert(-32768 * 255 <= a * q.x + (255 - a) * p.x <= 32768 * 255) by (nonlinear_arith)
        requires 0 <= a <= 255, -32768 <= p.x <= 32768, -32768 <= q.x <= 32768;
    assert(-32768 * 255 <= a * q.y + (255 - a) * p.y <= 32768 * 255) by (nonlinear_arith)
        requires 0 <= a <= 255, -32768 <= p.y <= 32768, -32768 <= q.y <= 32768;
}

/// A symmetric transition that moves the view to the specified edge
/// when transitioning in, and back to the same edge when transitioning out.
#[derive(Debug, Clone, Copy, PartialEq, Eq, Structural)]
pub struct Move {
    pub edge: Edge,
}

impl Move {
    pub fn new(edge: Edge) -> (r: Self)
        ensures
            r.edge == edge,
    {
        Self { edge }
    }

    /// Constructs a `Move` transition that transitions in and out from the leading edge.
    pub fn leading() -> (r: Self)
        ensures
            r.edge == Edge::Leading,
    {
        Self::new(Edge::Leading)
    }

    /// Constructs a `Move` transition that transitions in and out from the trailing edge.
    pub fn trailing() -> (r: Self)
        ensures
            r.edge == Edge::Trailing,
    {
        Self::new(Edge::Trailing)
    }

    /// Constructs a `Move` transition that transitions in and out from the top edge.
    pub fn top() -> (r: Self)
        ensures
            r.edge == Edge::Top,
    {
        Self::new(Edge::Top)
    }

    /// Constructs a `Move` transition that transitions in and out from the bottom edge.
    pub fn bottom() -> (r: Self)
        ensures
            r.edge == Edge::Bottom,
    {
        Self::new(Edge::Bottom)
    }
}

impl Transition for Move {
    open spec fn offset_at(&self, direction: Direction, factor: u8, bounds: Size) -> Point {
        let edge = edge_offset(self.edge, bounds);
        if direction == Direction::In {
            Point::interpolation(edge, Point { x: 0, y: 0 }, factor)
        } else {
            Point::interpolation(Point { x: 0, y: 0 }, edge, factor)
        }
    }

    open spec fn opacity_at(&self, direction: Direction, factor: u8) -> u8 {
        255
    }

    fn transform(&self, direction: Direction, factor: u8, bounds: Size) -> (r: Point) {
        let transform = offset_for_edge(self.edge, bounds);
        proof {
            lemma_small_blend_fits(transform, Point { x: 0, y: 0 }, factor);
            lemma_small_blend_fits(Point { x: 0, y: 0 }, transform, factor);
        }
        if direction == Direction::In {
            Point::interpolate(transform, Point::zero(), factor)
        } else {
            Point::interpolate(Point::zero(), transform, factor)
        }
    }

    fn opacity(&self, _direction: Direction, _factor: u8) -> (r: u8) {
        255
    }
}

/// An asymmetric transition that moves the view to the specified edge
/// when transitioning in, and to the opposite edge when transitioning out.
#[derive(Debug, Clone, Copy, PartialEq, Eq, Structural)]
pub struct Slide {
    pub edge: Edge,
}

impl Slide {
    pub fn new(edge: Edge) -> (r: Self)
        ensures
            r.edge == edge,
    {
        Self { edge }
    }

    /// Constructs a `Slide` transition that transitions in from the leading edge
    /// and out to the trailing edge.
    pub fn leading() -> (r: Self)
        ensures
            r.edge == Edge::Leading,
    {
        Self::new(Edge::Leading)
    }

    /// Constructs a `Slide` transition that transitions in from the trailing edge
    /// and out to the leading edge.
    pub fn trailing() -> (r: Self)
        ensures
            r.edge == Edge::Trailing,
    {
        Self::new(Edge::Trailing)
    }

    /// Constructs a `Slide` transition that transitions in from the top edge
    /// and out to the bottom edge.
    pub fn top() -> (r: Self)
        ensures
            r.edge == Edge::Top,
    {
        Self::new(Edge::Top)
    }

    /// Constructs a `Slide` transition that transitions in from the bottom edge
    /// and out to the top edge.
    pub fn bottom() -> (r: Self)
        ensures
            r.edge == Edge::Bottom,
    {
        Self::new(Edge::Bottom)
    }
}

impl Transition for Slide {
    open spec fn offset_at(&self, direction: Direction, factor: u8, bounds: Size) -> Point {
        let edge = edge_offset(self.edge, bounds);
        if direction == Direction::In {
            Point::interpolation(edge, Point { x: 0, y: 0 }, factor)
        } else {
            Point::interpolation(Point { x: 0, y: 0 }, negated(edge), factor)
        }
    }

    open spec fn opacity_at(&self, direction: Direction, factor: u8) -> u8 {
        255
    }

    fn transform(&self, direction: Direction, factor: u8, bounds: Size) -> (r: Point) {
        let transform = offset_for_edge(self.edge, bounds);
        let opposite = Point::new(-transform.x, -transform.y);
        proof {
            lemma_small_blend_fits(transform, Point { x: 0, y: 0 }, factor);
            lemma_small_blend_fits(Point { x: 0, y: 0 }, opposite, factor);
        }
        if direction == Direction::In {
            Point::interpolate(transform, Point::zero(), factor)
        } else {
            Point::interpolate(Point::zero(), opposite, factor)
        }
    }

    fn opacity(&self, _direction: Direction, _factor: u8) -> (r: u8) {
        255
    }
}

/// Every transition is at rest at the end of an appearance (`In` at 255) and
/// at the start of a disappearance (`Out` at 0): no offset, and full opacity.
pub proof fn lemma_transitions_rest(edge: Edge, bounds: Size)
    ensures
        Opacity.offset_at(Direction::In, 255, bounds) == (Point { x: 0, y: 0 }),
        Opacity.offset_at(Direction::Out, 0, bounds) == (Point { x: 0, y: 0 }),
        Opacity.opacity_at(Direction::In, 255) == 255,
        Opacity.opacity_at(Direction::Out, 0) == 255,
        (Move { edge }).offset_at(Direction::In, 255, bounds) == (Point { x: 0, y: 0 }),
        (Move { edge }).offset_at(Direction::Out, 0, bounds) == (Point { x: 0, y: 0 }),
        (Slide { edge }).offset_at(Direction::In, 255, bounds) == (Point { x: 0, y: 0 }),
        (Slide { edge }).offset_at(Direction::Out, 0, bounds) == (Point { x: 0, y: 0 }),
{
    let e = edge_offset(edge, bounds);
    let n = negated(e);
    lemma_blend_ends(e.x as int, 0, 0);
    lemma_blend_ends(e.y as int, 0, 0);
    lemma_blend_ends(0, e.x as int, 0);
    lemma_blend_ends(0, e.y as int, 0);
    lemma_blend_ends(0, n.x as int, 0);
    lemma_blend_ends(0, n.y as int, 0);
}

/// Moves and slides start an appearance at the edge offset; a move ends a
/// disappearance back at that edge, a slide at the opposite one. Neither
/// changes opacity.
pub proof fn lemma_transitions_far_ends(edge: Edge, bounds: Size, direction: Direction, factor: u8)
    ensures
        (Move { edge }).offset_at(Direction::In, 0, bounds) == edge_offset(edge, bounds),
        (Move { edge }).offset_at(Direction::Out, 255, bounds) == edge_offset(edge, bounds),
        (Slide { edge }).offset_at(Direction::In, 0, bounds) == edge_offset(edge, bounds),
        (Slide { edge }).offset_at(Direction::Out, 255, bounds) == negated(edge_offset(edge, bounds)),
        (Move { edge }).opacity_at(direction, factor) == 255,
        (Slide { edge }).opacity_at(direction, factor) == 255,
{
    let e = edge_offset(edge, bounds);
    let n = negated(e);
    lemma_blend_ends(e.x as int, 0, 0);
    lemma_blend_ends(e.y as int, 0, 0);
    lemma_blend_ends(0, e.x as int, 0);
    lemma_blend_ends(0, e.y as int, 0);
    lemma_blend_ends(0, n.x as int, 0);
    lemma_blend_ends(0, n.y as int, 0);
}

/// A move is symmetric: disappearing at factor `f` puts the view where
/// appearing at factor `255 - f` does.
pub proof fn lemma_move_symmetric(edge: Edge, bounds: Size, factor: u8)
    ensures
        (Move { edge }).offset_at(Direction::Out, factor, bounds) == (Move { edge }).offset_at(
            Direction::In,
            (255 - factor) as u8,
            bounds,
        ),
{
    let e = edge_offset(edge, bounds);
    let a = factor as int;
    assert(a * e.x + (255 - a) * 0 == (255 - a) * 0 + (255 - (255 - a)) * e.x) by (nonlinear_arith);
    assert(a * e.y + (255 - a) * 0 == (255 - a) * 0 + (255 - (255 - a)) * e.y) by (nonlinear_arith);
}

/// Fading in and fading out are complementary at every factor.
pub proof fn lemma_opacity_complementary(factor: u8)
    ensures
        Opacity.opacity_at(Direction::In, factor) + Opacity.opacity_at(Direction::Out, factor) == 255,
{
}

} // verus!
