//! Value types of the storage layer: the error taxonomy, query sorting
//! descriptors, per-entity sync state, and the storage configuration. The
//! adapters themselves (database, memory) live with the embedding
//! application.

use vstd::prelude::*;

verus! {

/// The ways a storage operation can fail.
#[derive(Debug)]
pub enum StorageError {
    NotFound { key: String },
    AccessDenied { reason: String },
    ValidationFailed { error: String },
    BackendError { backend: String, error: String },
    SerializationError { error: String },
    MigrationFailed { version: u32, error: String },
    SyncConflict { key: String },
    DatabaseUnavailable { reason: String },
}

/// One sort key of a storage query.
#[derive(Debug, Clone)]
pub struct SortCriteria {
    pub field: String,
    pub direction: SortDirection,
}

/// Direction of one sort key.
#[derive(Debug, Clone, PartialEq, Eq, Structural)]
pub enum SortDirection {
    Asc,
    Desc,
}

/// Synchronization state of a stored entity.
#[derive(Debug, Clone, PartialEq, Eq, Structural)]
pub enum SyncStatus {
    Local,
    Synced,
    Pending,
    Conflict,
}

/// Storage layer configuration: which backend leads, which ones catch a
/// failure, and the cache limits.
#[derive(Debug, Clone)]
pub struct StorageConfig {
    pub primary_backend: String,
    pub fallback_backends: Vec<String>,
    pub cache_ttl_seconds: u64,
    pub max_cache_size: usize,
    pub enable_compression: bool,
    pub enable_encryption: bool,
}

impl Default for StorageConfig {
    /// The default configuration: a database file as the primary backend,
    /// memory as the fallback, five minutes of cache, no compression, no
    /// encryption.
    fn default() -> (r: StorageConfig)
        ensures
            r.primary_backend@ == "sqlite"@,
            r.fallback_backends@.len() == 1,
            r.fallback_backends@[0]@ == "memory"@,
            r.cache_ttl_seconds == 300,
            r.max_cache_size == 1000,
            !r.enable_compression,
            !r.enable_encryption,
    {
        let mut fallback_backends: Vec<String> = Vec::new();
        fallback_backends.push("memory".to_owned());
        StorageConfig {
            primary_backend: "sqlite".to_owned(),
            fallback_backends,
            cache_ttl_seconds: 300,
            max_cache_size: 1000,
            enable_compression: false,
            enable_encryption: false,
        }
    }
}

} // verus!
