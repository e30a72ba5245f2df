use vstd::prelude::*;

use crate::primitives::interpolate::{blend, Interpolate};

verus! {

/// A width and height in pixels.
#[derive(Debug, Clone, Copy, PartialEq, Eq, Structural, Default)]
pub struct Size {
    pub width: u32,
    pub height: u32,
}

/// `a * b`, or `u32::MAX` where the product does not fit.
pub open spec fn saturating_mul_u32(a: int, b: int) -> int {
    if a * b > u32::MAX { u32::MAX as int } else { a * b }
}

impl Size {
    pub fn new(width: u32, height: u32) -> (r: Self)
        ensures
            r.width == width,
            r.height == height,
    {
        Self { width, height }
    }

    /// A size with equal width and height.
    pub fn new_equal(value: u32) -> (r: Self)
        ensures
            r.width == value,
            r.height == value,
    {
        Self { width: value, height: value }
    }

    pub fn zero() -> (r: Self)
        ensures
            r.width == 0,
            r.height == 0,
    {
        Self { width: 0, height: 0 }
    }

    pub open spec fn spec_area(self) -> int {
        saturating_mul_u32(self.width as int, self.height as int)
    }

    /// The number of pixels covered, saturating at `u32::MAX`.
    pub fn area(&self) -> (r: u32)
        ensures
            r == self.spec_area(),
    {
        let w = self.width as u64;
        let h = self.height as u64;
        assert(w * h <= 0xffff_ffff * 0xffff_ffff) by (nonlinear_arith)
            requires w <= 0xffff_ffff, h <= 0xffff_ffff;
        let product = w * h;
        if product > u32::MAX as u64 {
            u32::MAX
        } else {
            product as u32
        }
    }
}

impl Interpolate for Size {
    open spec fn interpolate_ok(from: Self, to: Self, amount: u8) -> bool {
        &&& u32::interpolate_ok(from.width, to.width, amount)
        &&& u32::interpolate_ok(from.height, to.height, amount)
    }

    open spec fn interpolation(from: Self, to: Self, amount: u8) -> Self {
        Size {
            width: blend(from.width as int, to.width as int, amount as int) as u32,
            height: blend(from.height as int, to.height as int, amount as int) as u32,
        }
    }

    fn interpolate(from: Self, to: Self, amount: u8) -> (r: Self) {
        Size {
            width: u32::interpolate(from.width, to.width, amount),
            height: u32::interpolate(from.height, to.height, amount),
        }
    }
}

impl From<(u16, u16)> for Size {
    fn from(value: (u16, u16)) -> (r: Self) {
        Self { width: value.0 as u32, height: value.1 as u32 }
    }
}

impl vstd::std_specs::convert::FromSpecImpl<(u16, u16)> for Size {
    open spec fn obeys_from_spec() -> bool {
        true
    }

    open spec fn from_spec(value: (u16, u16)) -> Self {
        Size { width: value.0 as u32, height: value.1 as u32 }
    }
}

} // verus!
