//! The error taxonomy of the crate. Variants that in a full deployment
//! would wrap foreign error values carry their rendered message instead,
//! so that the type stays plain data.

use vstd::prelude::*;

verus! {

/// Everything that can go wrong across the cache, the synchronizer and the
/// surrounding commands.
#[derive(Debug)]
pub enum GistCacheError {
    /// The remote endpoint reported a failure.
    GitHubApi(String),
    /// No metadata index has been persisted yet.
    CacheNotFound,
    /// The persisted metadata index could not be decoded.
    CacheParse(String),
    /// An input/output failure outside the store's own protocol.
    Io(String),
    /// A transport-level failure while talking to the remote.
    Request(String),
    /// No gist carries the requested id.
    GistNotFound(String),
    /// A search returned nothing for the given query.
    NoSearchResults(String),
    /// An interactive selection was aborted or out of range.
    InvalidSelection,
    /// The remote client is not authenticated.
    NotAuthenticated,
    /// The remote call budget is exhausted; carries the remaining count.
    RateLimitExceeded(i64),
    /// Running a fetched script failed.
    Execution(String),
    /// The requested interpreter is not known.
    InvalidInterpreter(String),
    /// A configuration key or value was rejected.
    Config(String),
    /// A regular-expression filter did not compile.
    InvalidPattern(String),
    /// A content-store entry exists but could not be read back.
    CacheReadError(String),
    /// Writing a content-store entry failed.
    CacheWriteError(String),
    /// Deleting a content-store entry failed.
    CacheDeleteError(String),
    /// The store root could not be prepared.
    CacheDirectoryError(String),
    /// Replacing the running executable failed.
    SelfUpdate(String),
}

} // verus!
