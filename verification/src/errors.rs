//! Error taxonomy of the synchronization layer.
//!
//! Every failure that the library can report is a value of [`SyncError`];
//! no validation failure panics.

use vstd::prelude::*;

verus! {

/// The ways an operation of the synchronization layer can fail.
#[derive(Clone, Copy, Debug, PartialEq, Eq, Structural)]
pub enum SyncError {
    /// A transport service is not registered yet; retried inside the
    /// background workers and never surfaced to a caller.
    TransportUnavailable,
    /// Submitting the one in-flight command to the transport failed.
    SendFailed,
    /// Receiving the reply of the one in-flight command failed.
    ReceiveFailed,
    /// An operation that needs a running session was called while stopped.
    SessionNotStarted,
    /// An offset or size check failed while constructing a view, resolving
    /// a compact pointer, or filling an inline payload.
    BoundsError,
    /// Opening a shared-memory slab during hydration failed.
    SlabMappingFailed,
    /// An accessor was given an out-of-range index into a per-asset
    /// collection.
    IndexOutOfRange,
    /// The engine binary could not be located when starting the session.
    EngineNotFound,
}

impl SyncError {
    /// A short, fixed description of the error kind.
    pub fn describe(&self) -> (r: &'static str)
        ensures
            r@.len() > 0,
    {
        let r = match self {
            SyncError::TransportUnavailable => "transport service not available",
            SyncError::SendFailed => "failed to send command",
            SyncError::ReceiveFailed => "failed to receive response",
            SyncError::SessionNotStarted => "engine not started",
            SyncError::BoundsError => "offset or size out of bounds",
            SyncError::SlabMappingFailed => "failed to map shared-memory slab",
            SyncError::IndexOutOfRange => "index out of range",
            SyncError::EngineNotFound => "failed to locate engine binary",
        };
        proof {
            reveal_strlit("transport service not available");
            reveal_strlit("failed to send command");
            reveal_strlit("failed to receive response");
            reveal_strlit("engine not started");
            reveal_strlit("offset or size out of bounds");
            reveal_strlit("failed to map shared-memory slab");
            reveal_strlit("index out of range");
            reveal_strlit("failed to locate engine binary");
        }
        r
    }
}

} // verus!
