//! The ways in which framing a message can fail.

use vstd::prelude::*;

verus! {

/// The reason why a run of bytes is not a well-framed FIX message.
#[derive(Debug, Copy, Clone, PartialEq, Eq, Structural, Hash)]
pub enum DecodeError {
    /// The buffer is shorter than any legal message, or the length that its
    /// header announces is not the length that it has.
    Length,
    /// The two header fields cannot be located, or the trailing `CheckSum
    /// <10>` field is not well-formed.
    Invalid,
    /// The `CheckSum <10>` field is well-formed, but its value is not the sum
    /// of the bytes before it.
    CheckSum,
}

} // verus!
