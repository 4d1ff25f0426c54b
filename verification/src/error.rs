//! The error type shared by every module.

use vstd::prelude::*;

verus! {

/// Common error type used by SDK modules.
#[derive(Debug)]
pub enum GridError {
    /// Input is invalid or violates workload/deployment invariants.
    Validation(String),
    /// External/network dependency failed.
    Backend(String),
    /// Data could not be parsed or serialized.
    Codec(String),
    /// Requested resource or name was not found.
    NotFound(String),
    /// The contract has been deleted on chain.
    ContractDeleted,
}

/// A validation error carrying `msg`.
pub open spec fn is_validation(e: GridError, msg: Seq<char>) -> bool {
    e matches GridError::Validation(m) && m@ == msg
}

/// A not-found error carrying `msg`.
pub open spec fn is_not_found(e: GridError, msg: Seq<char>) -> bool {
    e matches GridError::NotFound(m) && m@ == msg
}

/// The human readable text of an error.
pub open spec fn error_text(e: GridError) -> Seq<char> {
    match e {
        GridError::Validation(m) => "invalid input: "@ + m@,
        GridError::Backend(m) => "backend error: "@ + m@,
        GridError::Codec(m) => "serde error: "@ + m@,
        GridError::NotFound(m) => "not found: "@ + m@,
        GridError::ContractDeleted => "contract is deleted"@,
    }
}

impl GridError {
    /// A validation error with the given message.
    pub fn validation(msg: &str) -> (r: GridError)
        ensures
            is_validation(r, msg@),
    {
        GridError::Validation(String::from_str(msg))
    }

    /// A backend error with the given message.
    pub fn backend(msg: &str) -> (r: GridError)
        ensures
            r matches GridError::Backend(m) && m@ == msg@,
    {
        GridError::Backend(String::from_str(msg))
    }

    /// A not-found error with the given message.
    pub fn not_found(msg: &str) -> (r: GridError)
        ensures
            is_not_found(r, msg@),
    {
        GridError::NotFound(String::from_str(msg))
    }

    /// The human readable text of the error (what `Display` would print).
    pub fn message(&self) -> (r: String)
        ensures
            r@ == error_text(*self),
    {
        match self {
            GridError::Validation(m) => String::from_str("invalid input: ").concat(m.as_str()),
            GridError::Backend(m) => String::from_str("backend error: ").concat(m.as_str()),
            GridError::Codec(m) => String::from_str("serde error: ").concat(m.as_str()),
            GridError::NotFound(m) => String::from_str("not found: ").concat(m.as_str()),
            GridError::ContractDeleted => String::from_str("contract is deleted"),
        }
    }
}

} // verus!
