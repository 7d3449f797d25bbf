//! Error type shared by every fallible function of the crate.

use vstd::prelude::*;

verus! {

/// Possible error kinds.
#[derive(Debug, Clone, Copy, PartialEq, Eq, Hash, Structural)]
pub enum ErrorKind {
    /// Malformed bytes, missing mandatory fields, violated box-tree invariants.
    InvalidInput,
    /// Recognised but unsupported constructs.
    Unsupported,
    /// Input that ended before a complete field could be read.
    Other,
}

/// The error of this crate: an [`ErrorKind`].
#[derive(Debug, Clone, Copy, PartialEq, Eq, Hash, Structural)]
pub struct Error {
    /// What went wrong.
    pub kind: ErrorKind,
}

impl Error {
    /// Makes an error of the given kind.
    pub fn new(kind: ErrorKind) -> (e: Error)
        ensures
            e.kind == kind,
    {
        Error { kind }
    }

    /// Returns the kind of this error.
    pub fn kind(&self) -> (k: ErrorKind)
        ensures
            k == self.kind,
    {
        self.kind
    }
}

/// Says that the result `r` is what the specification `s` prescribes: the same value, or
/// an error of the prescribed kind.
pub open spec fn reports<T>(r: Result<T, Error>, s: Result<T, ErrorKind>) -> bool {
    match s {
        Ok(v) => r == Ok::<T, Error>(v),
        Err(kind) => r == Err::<T, Error>(Error { kind }),
    }
}

} // verus!
