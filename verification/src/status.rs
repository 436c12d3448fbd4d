//! Result codes reported by the storage engine, and their translation into
//! the error type that the rest of the layer surfaces to callers.
//!
//! Absence of a key is not an error: callers that look a key up receive
//! `Option::None` instead.  A `Busy` code means two transactions contended
//! for the same key; the losing caller is expected to retry its whole
//! transaction.  Every other failing code is carried to the caller unchanged.

use vstd::prelude::*;

verus! {

/// The result code attached to every engine operation.
#[derive(Clone, Copy, Debug, PartialEq, Eq, Structural)]
pub enum StatusCode {
    /// The operation completed.
    Okay,
    /// The requested key is absent.
    NotFound,
    /// A conflicting transaction holds the requested key; retry.
    Busy,
    /// Stored data failed an integrity check.
    Corruption,
    /// The underlying medium reported a failure.
    IoError,
    /// A caller-supplied argument was rejected.
    InvalidArgument,
    /// The operation gave up waiting.
    TimedOut,
    /// The operation was abandoned by the engine.
    Aborted,
}

/// The outcome of one engine operation: a code plus a short description.
#[derive(Clone, Debug)]
pub struct Status {
    pub code: StatusCode,
    pub msg: String,
}

impl Status {
    /// A status that reports success.
    pub fn new_ok() -> (s: Status)
        ensures
            s.code == StatusCode::Okay,
    {
        Status { code: StatusCode::Okay, msg: String::new() }
    }

    /// A status carrying the given failing (or succeeding) code.
    pub fn with_code(code: StatusCode, msg: &str) -> (s: Status)
        ensures
            s.code == code,
            s.msg@ == msg@,
    {
        Status { code, msg: msg.to_owned() }
    }

    /// True when the status reports success.
    pub fn ok(&self) -> (r: bool)
        ensures
            r == (self.code == StatusCode::Okay),
    {
        match self.code {
            StatusCode::Okay => true,
            _ => false,
        }
    }
}

/// The error carried out of the layer when an engine operation fails.
///
/// The code states which failure occurred; `Busy` marks a retryable
/// transactional conflict, everything else is fatal to the operation.
#[derive(Clone, Debug)]
pub struct RocksDBStatusError {
    pub msg: String,
    pub code: StatusCode,
}

impl RocksDBStatusError {
    /// The engine's description of the failure.
    pub fn message(&self) -> (m: String)
        ensures
            m@ == self.msg@,
    {
        self.msg.clone()
    }
}

/// Translates an engine status into the layer's result convention: a
/// succeeding code becomes `Ok(())`, every other code becomes an error
/// carrying that code and the engine's message.
pub fn into_result(status: &Status) -> (r: Result<(), RocksDBStatusError>)
    ensures
        status.code == StatusCode::Okay <==> r is Ok,
        r matches Err(e) ==> e.code == status.code && e.msg@ == status.msg@,
{
    if status.ok() {
        Ok(())
    } else {
        Err(RocksDBStatusError { code: status.code, msg: status.msg.clone() })
    }
}

} // verus!
