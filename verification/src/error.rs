//! The ways in which the file store refuses a request.

use vstd::prelude::*;

verus! {

/// Why an operation on the file store did not succeed.
#[derive(Debug, Clone, Copy, PartialEq, Eq, Structural)]
pub enum StoreError {
    /// No record has the identifier that was looked up.
    NotFound,
    /// The table could not take the write.
    PersistenceError,
    /// The request does not describe a record.
    MalformedRequest,
}

impl StoreError {
    /// The status code that stands for this error on the wire.
    pub open spec fn status(self) -> nat {
        match self {
            StoreError::NotFound => 404,
            StoreError::PersistenceError => 500,
            StoreError::MalformedRequest => 400,
        }
    }

    /// The status code under which this error is reported: a lookup miss
    /// and a malformed request are the caller's (4xx), a failed write is
    /// the service's (5xx).
    pub fn status_code(&self) -> (code: u16)
        ensures
            code == self.status(),
    {
        match self {
            StoreError::NotFound => 404,
            StoreError::PersistenceError => 500,
            StoreError::MalformedRequest => 400,
        }
    }

    /// No two errors share a status code.
    pub proof fn status_is_distinct(a: StoreError, b: StoreError)
        ensures
            a.status() == b.status() <==> a == b,
    {
    }
}

} // verus!
