//! Message framing for the FIX (Financial Information eXchange) tag-value
//! encoding.
//!
//! The crate answers one question about a run of bytes: where does a FIX
//! message begin and end, and do its two structural fields, `BodyLength <9>`
//! and `CheckSum <10>`, agree with the bytes around them? Business fields
//! are never interpreted.
//!
//! Every function is verified with Verus: contracts are stated over
//! sequences of bytes and proved for all inputs.

use vstd::prelude::*;

pub mod tagvalue;

verus! {

/// The error variant of [`OptResult`].
#[derive(Clone, Debug, PartialEq)]
pub enum OptError<E> {
    /// Missing data.
    Missing,
    /// Data is present but there's some other error.
    Other(E),
}

/// Wrapper type for dealing with `Ok<None>` as errors.
///
/// Intuitively, this type only makes sense when the *absence* of data is *in
/// itself* an error, e.g. undefined FIX fields which are mandatory.
pub type OptResult<T, E> = Result<T, OptError<E>>;

} // verus!
