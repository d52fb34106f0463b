//! The ways in which a fill can fail to decode.

use vstd::prelude::*;

verus! {

/// Why a piece of text, or a decoded value, is not a fill.
#[derive(Debug, Clone, Copy, PartialEq, Eq, Structural)]
pub enum DecodeError {
    /// The text does not begin with `#`.
    MissingPrefix,
    /// The text begins with `#` but is neither 4 nor 7 bytes long; the
    /// payload is the length of the whole text in bytes, `#` included.
    InvalidLength(usize),
    /// A position after the `#` holds something other than a hex digit.
    HexDigitError,
    /// The value is neither text nor a sequence of texts.
    ShapeError,
}

} // verus!
