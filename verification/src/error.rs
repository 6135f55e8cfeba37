use vstd::prelude::*;

verus! {

/// The error kinds that the library's operations can surface.
#[derive(Clone, Copy, Debug, PartialEq, Eq, Structural)]
pub enum Error {
    /// The left operand's column count differs from the right operand's
    /// row count, so the product is undefined.
    DimensionMismatch,
    /// The two sequences handed to the dot product differ in length.
    LengthMismatch,
    /// An intermediate value left the representable `i64` range.
    Overflow,
    /// A counter was asked for under a key that was never registered.
    KeyNotFound,
}

impl Error {
    /// A short human-readable description of the error.
    pub fn message(&self) -> &'static str {
        match self {
            Error::DimensionMismatch => "dimension mismatch: a.col != b.row",
            Error::LengthMismatch => "dot product error: a.len() != b.len()",
            Error::Overflow => "value overflow: result does not fit in i64",
            Error::KeyNotFound => "key not found",
        }
    }
}

} // verus!
