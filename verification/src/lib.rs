//! A local mirror of a remote collection of versioned text snippets
//! ("gists"), each made of one or more named files.
//!
//! The crate centres on two components. [`cache::ContentCache`] models the
//! on-disk content store (one directory per gist, one file per cached body)
//! as an explicit value, so that every store operation - read, write,
//! delete, enumerate, size accounting and retention cleaning - carries an
//! exact contract. The [`update`] module holds the differential
//! synchronization cycle that reconciles a previously persisted metadata
//! index against freshly fetched records: invalidation of stale bodies,
//! merge by id with the fetched record winning, and ordering by timestamp.
//!
//! Timestamps are carried as whole seconds since the Unix epoch; the
//! [`time`] module converts between that form and the RFC 3339 text used
//! by the persisted index.

pub mod cache;
pub mod cli;
pub mod config;
pub mod error;
pub mod execution;
pub mod search;
pub mod self_update;
pub mod text;
pub mod time;
pub mod types;
pub mod update;

pub use types::{CacheMetadata, GistCache, GistFile, GistInfo};
