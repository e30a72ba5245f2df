use vstd::prelude::*;

use crate::primitives::interpolate::{blend, Interpolate};
use crate::primitives::size::Size;

verus! {

/// A point in a two-dimensional integer coordinate space.
#[derive(Debug, Clone, Copy, PartialEq, Eq, Structural, Default)]
pub struct Point {
    pub x: i32,
    pub y: i32,
}

/// Whether a mathematical integer fits in an `i32`.
pub open spec fn fits_i32(v: int) -> bool {
    i32::MIN <= v <= i32::MAX
}

impl Point {
    pub fn new(x: i32, y: i32) -> (r: Self)
        ensures
            r.x == x,
            r.y == y,
    {
        Self { x, y }
    }

    pub fn zero() -> (r: Self)
        ensures
            r.x == 0,
            r.y == 0,
    {
        Self { x: 0, y: 0 }
    }

    /// Whether `self + other` fits in the coordinate range.
    pub open spec fn can_add(self, other: Point) -> bool {
        fits_i32(self.x + other.x) && fits_i32(self.y + other.y)
    }

    /// Whether `self + size` fits in the coordinate range; the size is taken
    /// as `i32` the way `as` converts it.
    pub open spec fn can_add_size(self, size: Size) -> bool {
        fits_i32(self.x + (size.width as i32)) && fits_i32(self.y + (size.height as i32))
    }

    pub open spec fn plus(self, other: Point) -> Point {
        Point { x: (self.x + other.x) as i32, y: (self.y + other.y) as i32 }
    }

    pub open spec fn plus_size(self, size: Size) -> Point {
        Point {
            x: (self.x + (size.width as i32)) as i32,
            y: (self.y + (size.height as i32)) as i32,
        }
    }
}

impl core::ops::Neg for Point {
    type Output = Self;

    fn neg(self) -> (r: Self) {
        Self { x: -self.x, y: -self.y }
    }
}

impl vstd::std_specs::ops::NegSpecImpl for Point {
    open spec fn obeys_neg_spec() -> bool {
        true
    }

    open spec fn neg_req(self) -> bool {
        self.x != i32::MIN && self.y != i32::MIN
    }

    open spec fn neg_spec(self) -> Self {
        Point { x: -self.x as i32, y: -self.y as i32 }
    }
}

impl core::ops::Add for Point {
    type Output = Self;

    fn add(self, rhs: Self) -> (r: Self) {
        Self { x: self.x + rhs.x, y: self.y + rhs.y }
    }
}

impl vstd::std_specs::ops::AddSpecImpl for Point {
    open spec fn obeys_add_spec() -> bool {
        true
    }

    open spec fn add_req(self, rhs: Self) -> bool {
        self.can_add(rhs)
    }

    open spec fn add_spec(self, rhs: Self) -> Self {
        self.plus(rhs)
    }
}

impl core::ops::Sub for Point {
    type Output = Self;

    fn sub(self, rhs: Self) -> (r: Self) {
        Self { x: self.x - rhs.x, y: self.y - rhs.y }
    }
}

impl vstd::std_specs::ops::SubSpecImpl for Point {
    open spec fn obeys_sub_spec() -> bool {
        true
    }

    open spec fn sub_req(self, rhs: Self) -> bool {
        fits_i32(self.x - rhs.x) && fits_i32(self.y - rhs.y)
    }

    open spec fn sub_spec(self, rhs: Self) -> Self {
        Point { x: (self.x - rhs.x) as i32, y: (self.y - rhs.y) as i32 }
    }
}

impl core::ops::Add<Size> for Point {
    type Output = Self;

    fn add(self, rhs: Size) -> (r: Self) {
        Self { x: self.x + rhs.width as i32, y: self.y + rhs.height as i32 }
    }
}

impl vstd::std_specs::ops::AddSpecImpl<Size> for Point {
    open spec fn obeys_add_spec() -> bool {
        true
    }

    open spec fn add_req(self, rhs: Size) -> bool {
        self.can_add_size(rhs)
    }

    open spec fn add_spec(self, rhs: Size) -> Self {
        self.plus_size(rhs)
    }
}

/// Whether every intermediate of the per-axis blend fits in an `i32`.
pub open spec fn blend_fits_i32(from: i32, to: i32, amount: u8) -> bool {
    &&& fits_i32(amount * to)
    &&& fits_i32((255 - amount) * from)
    &&& fits_i32(amount * to + (255 - amount) * from)
}

impl Interpolate for Point {
    open spec fn interpolate_ok(from: Self, to: Self, amount: u8) -> bool {
        blend_fits_i32(from.x, to.x, amount) && blend_fits_i32(from.y, to.y, amount)
    }

    open spec fn interpolation(from: Self, to: Self, amount: u8) -> Self {
        Point {
            x: blend(from.x as int, to.x as int, amount as int) as i32,
            y: blend(from.y as int, to.y as int, amount as int) as i32,
        }
    }

    fn interpolate(from: Self, to: Self, amount: u8) -> (r: Self) {
        let a = amount as i32;
        let b = 255 - a;
        Self {
            x: ((a * to.x) + (b * from.x)) / 255,
            y: ((a * to.y) + (b * from.y)) / 255,
        }
    }
}


/// Interpolating points gives the start point at factor 0 and the end point
/// at factor 255.
pub proof fn lemma_point_interpolation_ends(from: Point, to: Point)
    ensures
        Point::interpolation(from, to, 0) == from,
        Point::interpolation(from, to, 255) == to,
{
    crate::primitives::interpolate::lemma_blend_ends(from.x as int, to.x as int, 0);
    crate::primitives::interpolate::lemma_blend_ends(from.y as int, to.y as int, 0);
}

} // verus!
