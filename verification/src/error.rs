//! The error taxonomy shared by every fallible operation of the library.

use vstd::prelude::*;

verus! {

/// Everything that can go wrong while building, parsing or reading chunks.
#[derive(Clone, Copy, Debug, PartialEq, Eq, Structural)]
pub enum PngError {
    /// A type-code byte is not an ASCII letter.
    InvalidByte,
    /// The buffer does not begin with the PNG magic sequence.
    InvalidSignature,
    /// A declared chunk length exceeds the bytes that remain in the buffer.
    UnexpectedEof,
    /// A recomputed CRC-32 differs from the stored value.
    CrcMismatch,
    /// A chunk payload requested as text is not valid UTF-8.
    InvalidUtf8,
    /// No chunk matches the requested type during lookup.
    NotFound,
}

} // verus!
