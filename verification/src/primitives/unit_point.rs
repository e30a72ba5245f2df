//! Normalized points in a view's coordinate space, held as 9.7 fixed-point
//! numbers and computed with the `fixed` crate's `I9F7` arithmetic.
use vstd::prelude::*;

use fixed::traits::ToFixed;
use fixed::types::I9F7;

use crate::primitives::geometry::rectangle::Rectangle;
use crate::primitives::interpolate::Interpolate;
use crate::primitives::point::Point;

verus! {

/// The bits of 1.0 in 9.7 fixed point.
pub const FIXED_ONE: i16 = 128i16;

/// The bits of 0.5 in 9.7 fixed point.
pub const FIXED_HALF: i16 = 64i16;

/// `fixed`'s conversion of a `u8` to `I9F7` (`From<u8>`), given as the
/// bits of the result. The conversion is exact: the value shifted left by
/// the seven fraction bits.
#[verifier::external_body]
fn fixed_from_u8(value: u8) -> (r: i16)
    ensures
        r == value * 128,
{
    I9F7::from(value).to_bits()
}

/// `fixed`'s division of an `I9F7` by an integer (`Div<i16>`), on bits: the
/// bits are divided as `i16`, which for a non-negative dividend and a
/// positive divisor rounds down.
#[verifier::external_body]
fn fixed_div_int(bits: i16, divisor: i16) -> (r: i16)
    requires
        bits >= 0,
        divisor > 0,
    ensures
        r == bits / divisor,
{
    (I9F7::from_bits(bits) / divisor).to_bits()
}

/// `fixed`'s subtraction of two `I9F7` numbers, on bits: the bits are
/// subtracted as `i16`, which the caller keeps from overflowing.
#[verifier::external_body]
fn fixed_sub(a: i16, b: i16) -> (r: i16)
    requires
        i16::MIN <= a - b <= i16::MAX,
    ensures
        r == a - b,
{
    (I9F7::from_bits(a) - I9F7::from_bits(b)).to_bits()
}

/// `fixed`'s addition of two `I9F7` numbers, on bits: the bits are added as
/// `i16`, which the caller keeps from overflowing.
#[verifier::external_body]
fn fixed_add(a: i16, b: i16) -> (r: i16)
    requires
        i16::MIN <= a + b <= i16::MAX,
    ensures
        r == a + b,
{
    (I9F7::from_bits(a) + I9F7::from_bits(b)).to_bits()
}

/// `fixed`'s multiplication of two `I9F7` numbers, on bits: the product of
/// the bits is formed in `i32` and shifted right by the seven fraction bits,
/// which rounds toward negative infinity. The product stays within `i32`
/// exactly when `a * b` lies in `[-2^22, 2^22)`.
#[verifier::external_body]
fn fixed_mul(a: i16, b: i16) -> (r: i16)
    requires
        -4194304 <= a * b < 4194304,
    ensures
        r == (a * b) / 128,
{
    (I9F7::from_bits(a) * I9F7::from_bits(b)).to_bits()
}

/// Scales the `I9F7` number with bits `unit_bits` by the integer `length`
/// with `fixed`: `length` is converted exactly by `to_fixed` (it is below
/// 256), the product is exact as it fits, and `to_num` drops the fraction,
/// rounding toward negative infinity.
#[verifier::external_body]
fn fixed_scale(unit_bits: i16, length: u32) -> (r: i32)
    requires
        length <= 255,
        -32768 <= unit_bits * length <= 32767,
    ensures
        r == (unit_bits * length) / 128,
{
    (I9F7::from_bits(unit_bits) * length.to_fixed::<I9F7>()).to_num::<i32>()
}

/// The blend that `I9F7` interpolation computes on bits: the factor
/// `amount / 255` is taken in 9.7 fixed point (rounding down), and the step
/// `(to - from) * factor` is rounded toward negative infinity.
pub open spec fn fixed_blend(from: i16, to: i16, amount: u8) -> int {
    from + ((to - from) * ((amount * 128) / 255)) / 128
}

/// Whether each step of the `I9F7` blend stays within its bits.
pub open spec fn fixed_blend_ok(from: i16, to: i16, amount: u8) -> bool {
    &&& i16::MIN <= to - from <= i16::MAX
    &&& -4194304 <= (to - from) * ((amount * 128) / 255) < 4194304
    &&& i16::MIN <= fixed_blend(from, to, amount) <= i16::MAX
}

/// Interpolates two 9.7 fixed-point numbers, given as bits, the way
/// `from + (to - from) * (amount / 255)` evaluates in `I9F7`.
pub fn interpolate_fixed(from: i16, to: i16, amount: u8) -> (r: i16)
    requires
        fixed_blend_ok(from, to, amount),
    ensures
        r == fixed_blend(from, to, amount),
{
    let whole = fixed_from_u8(amount);
    let factor = fixed_div_int(whole, 255);
    assert(0 <= factor <= 128) by (nonlinear_arith)
        requires
            factor == (amount * 128) / 255,
            0 <= amount <= 255,
    ;
    let diff = fixed_sub(to, from);
    let step = fixed_mul(diff, factor);
    assert(i16::MIN <= from + step <= i16::MAX);
    fixed_add(from, step)
}

/// A normalized point in a view's coordinate space.
///
/// A coordinate of 1 stands for the bottom or trailing edge of the view and
/// 0 for the leading or top edge; 0.5 is the center. Coordinates outside 0
/// to 1 are valid. Each coordinate is a 9.7 fixed-point number, held as its
/// bits.
#[derive(Debug, Clone, Copy, PartialEq, Eq, Structural)]
pub struct UnitPoint {
    /// The bits of the horizontal coordinate
    pub x: i16,
    /// The bits of the vertical coordinate
    pub y: i16,
}

impl UnitPoint {
    /// The point with the given 9.7 fixed-point coordinate bits.
    pub fn from_bits(x: i16, y: i16) -> (r: Self)
        ensures
            r.x == x,
            r.y == y,
    {
        Self { x, y }
    }

    /// Whether `in_view_bounds` can place this point in `frame`: the frame's
    /// sides convert to `I9F7` (they are below 256), the products fit, and
    /// the result fits `i32`.
    pub open spec fn fits_frame(&self, frame: Rectangle) -> bool {
        &&& frame.size.width <= 255
        &&& frame.size.height <= 255
        &&& -32768 <= self.x * frame.size.width <= 32767
        &&& -32768 <= self.y * frame.size.height <= 32767
        &&& i32::MIN <= frame.origin.x + (self.x * frame.size.width) / 128 <= i32::MAX
        &&& i32::MIN <= frame.origin.y + (self.y * frame.size.height) / 128 <= i32::MAX
    }

    /// Converts `self` to a point in the given frame's coordinate space:
    /// the frame's origin plus each coordinate times the frame's extent,
    /// rounded toward negative infinity.
    pub fn in_view_bounds(&self, frame: &Rectangle) -> (r: Point)
        requires
            self.fits_frame(*frame),
        ensures
            r == (Point {
                x: (frame.origin.x + (self.x * frame.size.width) / 128) as i32,
                y: (frame.origin.y + (self.y * frame.size.height) / 128) as i32,
            }),
    {
        let dx = fixed_scale(self.x, frame.size.width);
        let dy = fixed_scale(self.y, frame.size.height);
        Point { x: frame.origin.x + dx, y: frame.origin.y + dy }
    }

    pub fn top_leading() -> (r: Self)
        ensures
            r.x == 0 && r.y == 0,
    {
        Self { x: 0, y: 0 }
    }

    pub fn top() -> (r: Self)
        ensures
            r.x == FIXED_HALF && r.y == 0,
    {
        Self { x: FIXED_HALF, y: 0 }
    }

    pub fn top_trailing() -> (r: Self)
        ensures
            r.x == FIXED_ONE && r.y == 0,
    {
        Self { x: FIXED_ONE, y: 0 }
    }

    pub fn leading() -> (r: Self)
        ensures
            r.x == 0 && r.y == FIXED_HALF,
    {
        Self { x: 0, y: FIXED_HALF }
    }

    pub fn center() -> (r: Self)
        ensures
            r.x == FIXED_HALF && r.y == FIXED_HALF,
    {
        Self { x: FIXED_HALF, y: FIXED_HALF }
    }

    pub fn trailing() -> (r: Self)
        ensures
            r.x == FIXED_ONE && r.y == FIXED_HALF,
    {
        Self { x: FIXED_ONE, y: FIXED_HALF }
    }

    pub fn bottom_leading() -> (r: Self)
        ensures
            r.x == 0 && r.y == FIXED_ONE,
    {
        Self { x: 0, y: FIXED_ONE }
    }

    pub fn bottom() -> (r: Self)
        ensures
            r.x == FIXED_HALF && r.y == FIXED_ONE,
    {
        Self { x: FIXED_HALF, y: FIXED_ONE }
    }

    pub fn bottom_trailing() -> (r: Self)
        ensures
            r.x == FIXED_ONE && r.y == FIXED_ONE,
    {
        Self { x: FIXED_ONE, y: FIXED_ONE }
    }
}

impl Interpolate for UnitPoint {
    open spec fn interpolate_ok(from: Self, to: Self, amount: u8) -> bool {
        fixed_blend_ok(from.x, to.x, amount) && fixed_blend_ok(from.y, to.y, amount)
    }

    open spec fn interpolation(from: Self, to: Self, amount: u8) -> Self {
        UnitPoint {
            x: fixed_blend(from.x, to.x, amount) as i16,
            y: fixed_blend(from.y, to.y, amount) as i16,
        }
    }

    fn interpolate(from: Self, to: Self, amount: u8) -> (r: Self) {
        Self {
            x: interpolate_fixed(from.x, to.x, amount),
            y: interpolate_fixed(from.y, to.y, amount),
        }
    }
}

/// A unit point placed in a frame stays inside it when its coordinates lie
/// between 0 and 1.
pub proof fn lemma_unit_point_in_frame(p: UnitPoint, frame: Rectangle)
    requires
        p.fits_frame(frame),
        0 <= p.x <= FIXED_ONE,
        0 <= p.y <= FIXED_ONE,
    ensures
        frame.origin.x <= frame.origin.x + (p.x * frame.size.width) / 128 <= frame.origin.x
            + frame.size.width,
        frame.origin.y <= frame.origin.y + (p.y * frame.size.height) / 128 <= frame.origin.y
            + frame.size.height,
{
    let w = frame.size.width as int;
    let h = frame.size.height as int;
    let x = p.x as int;
    let y = p.y as int;
    assert(0 <= (x * w) / 128 <= w) by (nonlinear_arith)
        requires
            0 <= x <= 128,
            0 <= w,
    ;
    assert(0 <= (y * h) / 128 <= h) by (nonlinear_arith)
        requires
            0 <= y <= 128,
            0 <= h,
    ;
}

/// Interpolating unit points gives the start at factor 0 and the end at
/// factor 255.
pub proof fn lemma_unit_point_interpolation_ends(from: UnitPoint, to: UnitPoint)
    ensures
        UnitPoint::interpolation(from, to, 0) == from,
        fixed_blend_ok(from.x, to.x, 255) && fixed_blend_ok(from.y, to.y, 255) ==> UnitPoint::interpolation(
            from,
            to,
            255,
        ) == to,
{
    assert((255 * 128) / 255 == 128);
    assert(((to.x - from.x) * 128) / 128 == to.x - from.x) by (nonlinear_arith);
    assert(((to.y - from.y) * 128) / 128 == to.y - from.y) by (nonlinear_arith);
}

} // verus!
