//! View-level settings that the render tree carries.
use vstd::prelude::*;

verus! {

/// How lines of text are placed horizontally within their frame.
#[derive(Debug, Clone, Copy, PartialEq, Eq, Structural, Default)]
pub enum HorizontalTextAlignment {
    #[default]
    Leading,
    Center,
    Trailing,
}

/// Where text is broken into lines.
#[derive(Debug, Clone, Copy, PartialEq, Eq, Structural, Default)]
pub enum WrapStrategy {
    /// Break between words
    #[default]
    Word,
    /// Break between any two characters
    Character,
}

} // verus!
