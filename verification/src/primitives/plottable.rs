use vstd::prelude::*;

verus! {

/// A value that can be used as a chart coordinate.
///
/// Types implementing this trait can be used as x or y values in chart marks.
/// Internally, chart coordinates are stored as `i16` to minimize memory usage.
pub trait Plottable: Sized + Copy {
    /// The chart coordinate of this value.
    spec fn coordinate(self) -> i16;

    /// Converts this value to an `i16` chart coordinate.
    fn as_i16(self) -> (r: i16)
        ensures
            r == self.coordinate(),
    ;
}

impl Plottable for i8 {
    open spec fn coordinate(self) -> i16 {
        self as i16
    }

    fn as_i16(self) -> (r: i16) {
        self as i16
    }
}

impl Plottable for i16 {
    open spec fn coordinate(self) -> i16 {
        self
    }

    fn as_i16(self) -> (r: i16) {
        self
    }
}

impl Plottable for u8 {
    open spec fn coordinate(self) -> i16 {
        self as i16
    }

    fn as_i16(self) -> (r: i16) {
        self as i16
    }
}

impl Plottable for u16 {
    /// Values above `i16::MAX` wrap around, as an `as` conversion does.
    open spec fn coordinate(self) -> i16 {
        self as i16
    }

    fn as_i16(self) -> (r: i16) {
        self as i16
    }
}

/// Every `i8` and `u8` keeps its value as a chart coordinate; a `u16` keeps
/// it up to `i16::MAX`.
pub proof fn lemma_plottable_preserves_small_values(a: i8, b: u8, c: u16)
    ensures
        a.coordinate() == a as int,
        b.coordinate() == b as int,
        c <= i16::MAX ==> c.coordinate() == c as int,
{
}

} // verus!
