//! The kinds of failure that the server side reports, and the HTTP status
//! each one becomes at the boundary.

use vstd::prelude::*;

verus! {

/// Why a persistence operation failed.
#[derive(Debug, Clone, Copy, PartialEq, Eq, Structural)]
pub enum StoreError {
    /// The persistence layer could not be reached.
    Unavailable,
    /// A constraint of the schema would be violated.
    Constraint,
}

/// Why a request was refused or could not be served.
#[derive(Debug, Clone, Copy, PartialEq, Eq, Structural)]
pub enum MdmError {
    /// Malformed property list, PEM block or certificate header.
    Parse,
    /// The message's fields match no identity pattern.
    UnresolvedIdentity,
    /// No certificate was presented, or its hash is not bound to the enrollment.
    Unauthorized,
    /// The persistence layer failed.
    Storage(StoreError),
}

/// The HTTP status that stands for `e`.
pub open spec fn spec_http_status(e: MdmError) -> u16 {
    match e {
        MdmError::Parse => 400,
        MdmError::UnresolvedIdentity => 400,
        MdmError::Unauthorized => 401,
        MdmError::Storage(_) => 500,
    }
}

impl MdmError {
    /// The HTTP status this error is reported with.
    pub fn http_status(&self) -> (code: u16)
        ensures
            code == spec_http_status(*self),
    {
        match self {
            MdmError::Parse => 400,
            MdmError::UnresolvedIdentity => 400,
            MdmError::Unauthorized => 401,
            MdmError::Storage(_) => 500,
        }
    }

    /// Wraps a persistence failure.
    pub fn from_store(e: StoreError) -> (r: MdmError)
        ensures
            r == MdmError::Storage(e),
    {
        MdmError::Storage(e)
    }
}

} // verus!
