//! Value types of the synchronization layer: the error taxonomy, change
//! and status descriptors, vector clocks, and the conflict resolver's
//! strategy table. The transport and the async sync loop live with the
//! embedding application.

use vstd::prelude::*;

verus! {

/// The ways a synchronization operation can fail.
#[derive(Debug)]
pub enum SyncError {
    ConnectionFailed { reason: String },
    SyncConflict { entity_id: String, reason: String },
    AuthenticationFailed { reason: String },
    NetworkError { error: String },
    SerializationError { error: String },
    StorageError { error: String },
    Timeout { seconds: u64 },
    ServerError { status: u16, message: String },
    ValidationError { reason: String },
    NotConnected,
}

/// Synchronization state of one entity.
#[derive(Debug, Clone)]
pub enum SyncStatus {
    Local,
    Synced,
    Pending,
    Conflict,
    Syncing,
    Failed { reason: String },
}

/// Kind of a queued sync change.
#[derive(Debug, Clone, PartialEq, Eq, Structural)]
pub enum SyncOperation {
    Create,
    Update,
    Delete,
    Restore,
}

/// Kind of a recorded change, as the server sees it.
#[derive(Debug, Clone, PartialEq, Eq, Structural)]
pub enum ChangeOperation {
    Create,
    Update,
    Delete,
    Purge,
}

/// Vector clock entry used for conflict detection.
#[derive(Debug, Clone)]
pub struct SyncVector {
    pub client_id: String,
    pub version: u64,
    pub server_version: Option<u64>,
}

/// Outcome of one synchronization round.
#[derive(Debug, Clone)]
pub struct SyncResult {
    pub changes_pushed: u64,
    pub changes_pulled: u64,
    pub conflicts_resolved: u64,
    pub duration_ms: u64,
    pub success: bool,
    pub error: Option<String>,
}

/// How a detected conflict is settled.
#[derive(Debug, Clone, PartialEq, Eq, Structural)]
pub enum ConflictResolutionStrategy {
    LastWriteWins,
    FirstWriteWins,
    Merge,
    Manual,
}

/// Chooses a resolution strategy per entity type, with a default for
/// everything unlisted.
#[derive(Debug)]
pub struct ConflictResolver {
    pub strategies: Vec<(String, ConflictResolutionStrategy)>,
    pub default_strategy: ConflictResolutionStrategy,
}

impl ConflictResolver {
    /// A resolver with no per-entity strategies that lets the last write
    /// win by default.
    pub fn new() -> (r: ConflictResolver)
        ensures
            r.strategies@.len() == 0,
            r.default_strategy == ConflictResolutionStrategy::LastWriteWins,
    {
        ConflictResolver {
            strategies: Vec::new(),
            default_strategy: ConflictResolutionStrategy::LastWriteWins,
        }
    }

    /// Which of two conflicting changes wins under the last-write-wins
    /// strategy: the remote one exactly when it is strictly newer.
    pub fn remote_wins_last_write(&self, local_timestamp: i64, remote_timestamp: i64) -> (r: bool)
        ensures
            r == (remote_timestamp > local_timestamp),
    {
        remote_timestamp > local_timestamp
    }
}

} // verus!
