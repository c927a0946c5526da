//! What a formula's text can hold that is no token.

use vstd::prelude::*;

verus! {

/// What the lexer can find wrong in a text.
#[derive(Debug, Clone, Copy, PartialEq, Eq, Structural)]
pub enum Kind {
    /// An invalid charater was encountered.
    UnexpectedCharacter { expected: char, found: char },
    /// A string was opened, but not closed before the end of the input.
    UnterminatedString,
    /// Number contains multiple radix points.
    /// e.g. `1.2.3`
    MultipleRadixPoints,
    /// Number ends with a radix point.
    /// e.g. `123.`
    RadixTerminator,
    /// Could not parse string as a cell reference.
    InvalidCellRef,
    /// Input ended unexpectedly.
    EndOfInput,
}

impl DeepView for Kind {
    type V = Kind;

    open spec fn deep_view(&self) -> Kind {
        *self
    }
}

} // verus!
