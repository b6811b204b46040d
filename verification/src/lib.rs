//! A personal file-tagging engine: attach string tags to filesystem paths
//! and retrieve paths by tag with set-style queries.
//!
//! The heart of the library is the [`store::TagStore`]: it owns the
//! persisted many-to-many relation between canonical paths and tags, offers
//! batch mutation in atomic transactions and answers list and search
//! queries. Its behaviour is specified against the abstract relation of
//! [`model`], and the properties that hold of every store — idempotent
//! adds, tolerant removal, garbage collection of untagged paths,
//! exclusion precedence and the rest — are proved in [`laws`].
//!
//! Persistence uses an embedded SQLite database through a small trusted
//! boundary; the command layer in [`cmd`] carries the per-subcommand
//! decision logic, while argument parsing, directory traversal and
//! printing live in the surrounding binary.
pub mod cmd;
mod db;
pub mod laws;
pub mod model;
pub mod query;
pub mod store;

use vstd::prelude::*;

verus! {

/// Errors surfaced by the tag store.
///
/// `StorageUnavailable` is fatal: the backing database could not be opened
/// or initialized. `PathNotFound` aborts a whole add batch and carries the
/// offending path. `StorageBusy` covers lock contention and transient I/O
/// failure inside a transaction; the transaction is rolled back and the
/// caller may retry. `FilterConflict` rejects a listing that asks for both
/// the directories-only and the files-only filter at once.
#[derive(Debug, PartialEq, Eq)]
pub enum TagError {
    StorageUnavailable,
    PathNotFound(String),
    StorageBusy,
    FilterConflict,
}

} // verus!
