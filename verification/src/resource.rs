//! Buffer-mapping bookkeeping: the status handed to a mapping callback,
//! and the decision taken when a new mapping request finds an earlier
//! one still pending.
use vstd::prelude::*;

verus! {

/// Outcome reported to a buffer-mapping callback.
#[derive(Clone, Copy, Debug, PartialEq, Eq, Structural)]
pub enum BufferMapAsyncStatus {
    Success,
    Error,
    Unknown,
    ContextLost,
}

/// Direction of a requested buffer mapping.
#[derive(Clone, Copy, Debug, PartialEq, Eq, Structural)]
pub enum BufferMapOperation {
    Read,
    Write,
}

impl BufferMapOperation {
    /// The status owed to the callback of a mapping request that fails
    /// because an earlier mapping is still pending: the error status,
    /// whichever direction was asked for.
    pub fn call_error(self) -> (r: BufferMapAsyncStatus)
        ensures
            r == BufferMapAsyncStatus::Error,
    {
        match self {
            BufferMapOperation::Read => BufferMapAsyncStatus::Error,
            BufferMapOperation::Write => BufferMapAsyncStatus::Error,
        }
    }
}

} // verus!
