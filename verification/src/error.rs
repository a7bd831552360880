//! Error types: construction and text-decoding failures.

use vstd::prelude::*;

verus! {

/// A failure while decoding hexadecimal marker text.
#[derive(Clone, Copy, Debug, PartialEq, Eq, Structural)]
pub enum DecodeError {
    /// The text's length is odd, so it cannot name whole bytes.
    InvalidHexLength,
    /// A character of the text is not a hexadecimal digit.
    InvalidHexDigit,
    /// The text names whole bytes, but not the number a value needs.
    UnexpectedByteCount,
}

/// A failure while constructing a `Gene`.
#[derive(Clone, Copy, Debug, PartialEq, Eq, Structural)]
pub enum GeneError {
    /// A gene must declare at least one marker.
    ZeroMarkerCount,
}

} // verus!
