//! Fonts as the render tree sees them.
use vstd::prelude::*;

use crate::primitives::interpolate::Interpolate;

verus! {

/// The attributes (such as a scale) that select how a font renders.
pub trait FontAttributes: Interpolate {
    /// A copy of these attributes.
    fn copied(&self) -> (r: Self)
        ensures
            r == *self,
    ;
}

impl FontAttributes for () {
    fn copied(&self) -> (r: Self) {
    }
}

impl FontAttributes for Scale {
    fn copied(&self) -> (r: Self) {
        Scale(self.0)
    }
}

/// A font, with the attributes that select its rendering.
pub trait Font {
    type Attributes: FontAttributes;
}

/// A font for character-grid targets, where every character takes one cell.
#[derive(Debug, Clone, Copy, PartialEq, Eq, Structural, Default)]
pub struct CharacterBufferFont;

impl Font for CharacterBufferFont {
    type Attributes = ();
}

/// The integer scale of a bitmap font.
#[derive(Clone, Copy, Eq, PartialEq, Structural, Debug)]
pub struct Scale(pub u8);

impl Default for Scale {
    fn default() -> (r: Self)
        ensures
            r.0 == 1,
    {
        Self(1)
    }
}

impl Scale {
    /// Sets the scale from a size, keeping its low byte as an `as` conversion does.
    pub fn with_size(self, size: u16) -> (r: Self)
        ensures
            r.0 == size as u8,
    {
        let mut s = self;
        s.0 = size as u8;
        s
    }
}

impl Interpolate for Scale {
    open spec fn interpolate_ok(from: Self, to: Self, amount: u8) -> bool {
        true
    }

    open spec fn interpolation(from: Self, to: Self, amount: u8) -> Self {
        Scale(u8::interpolation(from.0, to.0, amount))
    }

    fn interpolate(from: Self, to: Self, amount: u8) -> (r: Self) {
        Self(u8::interpolate(from.0, to.0, amount))
    }
}

} // verus!
