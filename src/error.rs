//! The errors of document handling, encoding and verification.
use vstd::prelude::*;

verus! {

/// Why a document, an encoding or a sealed record was refused.
#[derive(Debug)]
pub enum SpecError {
    /// The document could not be read into the data model.
    InvalidJson(String),
    /// A value could not be put into canonical form.
    CanonicalJson,
    /// A string that should be a `sha256:` digest is not one; carries the string.
    InvalidSha256(String),
    /// A string that should be a bare MD5 digest is not one; carries the string.
    InvalidMd5(String),
    /// The stored digest differs from the recomputed one.
    HashMismatch { expected: String, actual: String },
}

} // verus!
