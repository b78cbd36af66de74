//! Why an operation of a backend failed.

use vstd::prelude::*;

verus! {

/// The cause of a failure, as the store and the dispatcher report it.
///
/// The wire knows a single kind of failure, a server-side error with a
/// message; the cause is kept apart here so that callers can tell one from
/// another.
#[derive(Clone, Copy, Debug, PartialEq, Eq, Structural)]
pub enum OrderError {
    /// No record has the id that was looked up.
    NotFound,
    /// The backend could not do its work.
    BackendFailure,
    /// The operation is not wired to a backend.
    Unimplemented,
}

impl OrderError {
    /// The message that goes out with the failure.
    pub open spec fn message_text(self) -> Seq<char> {
        match self {
            OrderError::NotFound => "order not found"@,
            OrderError::BackendFailure => "backend failure"@,
            OrderError::Unimplemented => "not implemented"@,
        }
    }

    /// The message that goes out with the failure.
    pub fn message(&self) -> (text: String)
        ensures
            text@ == self.message_text(),
    {
        match self {
            OrderError::NotFound => "order not found".to_owned(),
            OrderError::BackendFailure => "backend failure".to_owned(),
            OrderError::Unimplemented => "not implemented".to_owned(),
        }
    }
}

} // verus!
