use vstd::prelude::*;

verus! {

/// Linear blend between `from` and `to` by `amount / 255`, computed on
/// mathematical integers and rounded toward zero, which is how the integer
/// implementations below compute it.
pub open spec fn blend(from: int, to: int, amount: int) -> int {
    let n = amount * to + (255 - amount) * from;
    if n >= 0 { n / 255 } else { -((-n) / 255) }
}

/// The step blend used by values that cannot be blended continuously: the
/// source is kept below the midpoint, the target from it on.
pub open spec fn step<T>(from: T, to: T, amount: u8) -> T {
    if amount < 127 { from } else { to }
}

/// A value that can be interpolated between two states by an animation
/// factor, where 0 gives the first state and 255 the second.
pub trait Interpolate: Sized {
    /// Whether the blend of these values can be computed without overflow.
    spec fn interpolate_ok(from: Self, to: Self, amount: u8) -> bool;

    /// The value `interpolate` produces.
    spec fn interpolation(from: Self, to: Self, amount: u8) -> Self;

    fn interpolate(from: Self, to: Self, amount: u8) -> (r: Self)
        requires
            Self::interpolate_ok(from, to, amount),
        ensures
            r == Self::interpolation(from, to, amount),
    ;
}

/// The blend of two values lies between them (a weighted average with weights
/// `amount` and `255 - amount` can never leave the range of its terms).
pub proof fn lemma_blend_between(from: int, to: int, amount: int)
    requires
        0 <= amount <= 255,
    ensures
        from <= to ==> from <= blend(from, to, amount) <= to,
        to <= from ==> to <= blend(from, to, amount) <= from,
{
    let n = amount * to + (255 - amount) * from;
    assert(n == 255 * from + amount * (to - from)) by (nonlinear_arith)
        requires n == amount * to + (255 - amount) * from;
    if from <= to {
        assert(0 <= amount * (to - from) <= 255 * (to - from)) by (nonlinear_arith)
            requires 0 <= amount <= 255, from <= to;
    }
    if to <= from {
        assert(0 <= amount * (from - to) <= 255 * (from - to)) by (nonlinear_arith)
            requires 0 <= amount <= 255, to <= from;
        assert(amount * (to - from) == -(amount * (from - to))) by (nonlinear_arith);
    }
}

/// The blend reaches its ends exactly: amount 0 gives `from`, amount 255
/// gives `to`, and blending a value with itself gives that value.
pub proof fn lemma_blend_ends(from: int, to: int, amount: int)
    requires
        0 <= amount <= 255,
    ensures
        blend(from, to, 0) == from,
        blend(from, to, 255) == to,
        blend(from, from, amount) == from,
{
    assert(0 * to + (255 - 0) * from == 255 * from);
    assert(255 * to + (255 - 255) * from == 255 * to);
    assert(amount * from + (255 - amount) * from == 255 * from) by (nonlinear_arith);
    if from < 0 {
        assert((-(255 * from)) / 255 == -from);
    }
    if to < 0 {
        assert((-(255 * to)) / 255 == -to);
    }
}


/// The blend is monotone in both end points: raising either end never lowers
/// the result.
pub proof fn lemma_blend_monotone(f1: int, t1: int, f2: int, t2: int, amount: int)
    requires
        0 <= amount <= 255,
        f1 <= f2,
        t1 <= t2,
    ensures
        blend(f1, t1, amount) <= blend(f2, t2, amount),
{
    let n1 = amount * t1 + (255 - amount) * f1;
    let n2 = amount * t2 + (255 - amount) * f2;
    assert(n1 <= n2) by (nonlinear_arith)
        requires
            0 <= amount <= 255,
            f1 <= f2,
            t1 <= t2,
            n1 == amount * t1 + (255 - amount) * f1,
            n2 == amount * t2 + (255 - amount) * f2,
    ;
    if n1 >= 0 {
        vstd::arithmetic::div_mod::lemma_div_is_ordered(n1, n2, 255);
    } else if n2 >= 0 {
    } else {
        vstd::arithmetic::div_mod::lemma_div_is_ordered(-n2, -n1, 255);
    }
}

impl Interpolate for () {
    open spec fn interpolate_ok(from: Self, to: Self, amount: u8) -> bool {
        true
    }

    open spec fn interpolation(from: Self, to: Self, amount: u8) -> Self {
        ()
    }

    fn interpolate(_from: Self, _to: Self, _amount: u8) -> (r: Self) {
    }
}

impl Interpolate for u8 {
    open spec fn interpolate_ok(from: Self, to: Self, amount: u8) -> bool {
        true
    }

    open spec fn interpolation(from: Self, to: Self, amount: u8) -> Self {
        blend(from as int, to as int, amount as int) as u8
    }

    fn interpolate(from: Self, to: Self, amount: u8) -> (r: Self) {
        let a = amount as u16;
        assert(a * (to as u16) <= 255 * 255) by (nonlinear_arith)
            requires a <= 255, to <= 255;
        assert((255 - a) * (from as u16) <= (255 - a) * 255) by (nonlinear_arith)
            requires a <= 255, from <= 255;
        assert(a * 255 + (255 - a) * 255 == 255 * 255) by (nonlinear_arith);
        assert(a * (to as u16) <= a * 255) by (nonlinear_arith)
            requires a <= 255, to <= 255;
        let n = a * (to as u16) + (255 - a) * (from as u16);
        proof {
            lemma_blend_between(from as int, to as int, amount as int);
        }
        (n / 255) as u8
    }
}

impl Interpolate for u16 {
    open spec fn interpolate_ok(from: Self, to: Self, amount: u8) -> bool {
        true
    }

    open spec fn interpolation(from: Self, to: Self, amount: u8) -> Self {
        blend(from as int, to as int, amount as int) as u16
    }

    fn interpolate(from: Self, to: Self, amount: u8) -> (r: Self) {
        let a = amount as u32;
        assert(a * (to as u32) <= a * 65535) by (nonlinear_arith)
            requires a <= 255, to <= 65535;
        assert((255 - a) * (from as u32) <= (255 - a) * 65535) by (nonlinear_arith)
            requires a <= 255, from <= 65535;
        assert(a * 65535 + (255 - a) * 65535 == 255 * 65535) by (nonlinear_arith);
        let n = a * (to as u32) + (255 - a) * (from as u32);
        proof {
            lemma_blend_between(from as int, to as int, amount as int);
        }
        (n / 255) as u16
    }
}

impl Interpolate for i16 {
    open spec fn interpolate_ok(from: Self, to: Self, amount: u8) -> bool {
        true
    }

    open spec fn interpolation(from: Self, to: Self, amount: u8) -> Self {
        blend(from as int, to as int, amount as int) as i16
    }

    fn interpolate(from: Self, to: Self, amount: u8) -> (r: Self) {
        let a = amount as i32;
        assert(-255 * 32768 <= a * (to as i32) <= 255 * 32767) by (nonlinear_arith)
            requires 0 <= a <= 255, -32768 <= to <= 32767;
        assert(-255 * 32768 <= (255 - a) * (from as i32) <= 255 * 32767) by (nonlinear_arith)
            requires 0 <= a <= 255, -32768 <= from <= 32767;
        let n = a * (to as i32) + (255 - a) * (from as i32);
        proof {
            lemma_blend_between(from as int, to as int, amount as int);
        }
        (n / 255) as i16
    }
}

impl Interpolate for u32 {
    open spec fn interpolate_ok(from: Self, to: Self, amount: u8) -> bool {
        amount * to + (255 - amount) * from <= u32::MAX
    }

    open spec fn interpolation(from: Self, to: Self, amount: u8) -> Self {
        blend(from as int, to as int, amount as int) as u32
    }

    fn interpolate(from: Self, to: Self, amount: u8) -> (r: Self) {
        let a = amount as u32;
        assert(a * to <= a * to + (255 - a) * from) by (nonlinear_arith)
            requires a <= 255;
        assert((255 - a) * from <= a * to + (255 - a) * from) by (nonlinear_arith)
            requires a <= 255;
        (a * to + (255 - a) * from) / 255
    }
}

impl Interpolate for char {
    open spec fn interpolate_ok(from: Self, to: Self, amount: u8) -> bool {
        true
    }

    open spec fn interpolation(from: Self, to: Self, amount: u8) -> Self {
        step(from, to, amount)
    }

    fn interpolate(from: Self, to: Self, amount: u8) -> (r: Self) {
        if amount < 127 {
            from
        } else {
            to
        }
    }
}

} // verus!
