//! The error taxonomy shared by every layer: a closed set of three kinds,
//! so that the transport layer can map each failure to a status code.

use vstd::prelude::*;

verus! {

/// Classified failure of a domain or use-case operation.
///
/// - `InvalidArgument`: caller-supplied data violates a contract.
/// - `NotFound`: a referenced resource does not exist.
/// - `Internal`: an unexpected failure (persistence error, corrupted
///   stored data); its cause is never exposed to the caller.
#[derive(Debug)]
pub enum AppError {
    InvalidArgument(String),
    NotFound(String),
    Internal(String),
}

impl AppError {
    /// The human-readable message carried by the error.
    pub open spec fn message_spec(&self) -> Seq<char> {
        match self {
            AppError::InvalidArgument(m) => m@,
            AppError::NotFound(m) => m@,
            AppError::Internal(m) => m@,
        }
    }

    /// Borrow the message, whichever kind the error is.
    pub fn message(&self) -> (m: &String)
        ensures
            m@ == self.message_spec(),
    {
        match self {
            AppError::InvalidArgument(m) => m,
            AppError::NotFound(m) => m,
            AppError::Internal(m) => m,
        }
    }
}

} // verus!
