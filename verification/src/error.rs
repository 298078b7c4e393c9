//! Errors of the codec.

use vstd::prelude::*;

verus! {

/// A buffer that is complete but does not follow the grammar.
#[derive(Debug, Clone, Copy, PartialEq, Eq, Hash)]
pub enum FormatError {
    /// The leading tag is not one of the union's tags.
    UnknownDiscriminant,
    /// A length does not fit the prefix that has to declare it.
    LengthMismatch,
    /// The decoder of a wrapped value rejected the bytes cut out for it.
    InnerDecodeFailed,
}

/// Why encoding or decoding failed.
#[derive(Debug, Clone, Copy, PartialEq, Eq, Hash)]
pub enum Error {
    /// The input ended before the grammar was satisfied.
    Io,
    /// The input is malformed.
    Format(FormatError),
}

} // verus!
