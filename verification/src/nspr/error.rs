//! Error values of the layered I/O core.
//!
//! Errors are carried as explicit result values: every operation that can
//! fail returns the error to its immediate caller instead of parking it in
//! a side channel that a later call could overwrite.

use vstd::prelude::*;

verus! {

/// Numeric error code, in the classic NSPR numbering.
pub type PRErrorCode = i32;

pub const PR_WOULD_BLOCK_ERROR: PRErrorCode = -5998;

/// A transport method broke its contract (for example by reporting more
/// bytes than the caller asked for); the dispatch guard caught it.
pub const PR_INVALID_METHOD_ERROR: PRErrorCode = -5996;

pub const PR_NOT_IMPLEMENTED_ERROR: PRErrorCode = -5992;

pub const PR_IO_ERROR: PRErrorCode = -5991;

pub const PR_ADDRESS_NOT_SUPPORTED_ERROR: PRErrorCode = -5985;

pub const PR_IS_CONNECTED_ERROR: PRErrorCode = -5984;

pub const PR_NOT_CONNECTED_ERROR: PRErrorCode = -5978;

/// Writing to a pipe whose reading end is gone.
pub const PR_PIPE_ERROR: PRErrorCode = -5955;

pub const PR_END_OF_FILE_ERROR: PRErrorCode = -5938;

/// An I/O error: one code, always handed back as a value.
#[derive(Clone, Copy, PartialEq, Eq, Structural, Debug)]
pub struct Error {
    pub nspr_error: PRErrorCode,
}

impl Error {
    pub fn new(code: PRErrorCode) -> (r: Error)
        ensures
            r.nspr_error == code,
    {
        Error { nspr_error: code }
    }
}

impl From<PRErrorCode> for Error {
    fn from(code: PRErrorCode) -> (r: Error) {
        Error { nspr_error: code }
    }
}

impl vstd::std_specs::convert::FromSpecImpl<PRErrorCode> for Error {
    open spec fn obeys_from_spec() -> bool {
        true
    }

    open spec fn from_spec(code: PRErrorCode) -> Error {
        Error { nspr_error: code }
    }
}

} // verus!
