//! The failure taxonomy of the synchronization engine.

use vstd::prelude::*;

verus! {

/// Why a synchronization operation stopped.
#[derive(Debug)]
pub enum SyncError {
    /// The local store could not be read, written or committed.
    LocalStoreError(String),
    /// The remote backend could not be reached at the transport level.
    RemoteUnreachable(String),
    /// The remote backend answered with a non-success status; the payload
    /// carries the diagnostic text composed for the caller.
    RemoteRejected(String),
}

impl SyncError {
    /// The descriptive text carried by the error, whatever its kind.
    pub open spec fn spec_text(&self) -> Seq<char> {
        match *self {
            SyncError::LocalStoreError(s) => s@,
            SyncError::RemoteUnreachable(s) => s@,
            SyncError::RemoteRejected(s) => s@,
        }
    }

    /// Hands the descriptive text to the caller.
    pub fn into_text(self) -> (r: String)
        ensures
            r@ == self.spec_text(),
    {
        match self {
            SyncError::LocalStoreError(s) => s,
            SyncError::RemoteUnreachable(s) => s,
            SyncError::RemoteRejected(s) => s,
        }
    }
}

} // verus!
