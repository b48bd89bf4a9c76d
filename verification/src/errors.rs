//! Error taxonomy of the storage layer.
//!
//! Three families, one per phase: [`BootstrapError`] for anything that keeps
//! a store from being constructed, [`StorageError`] for the read and delete
//! paths, and [`ModifyEntryError`] for the write paths, which keeps caller
//! misuse (an unknown entry identifier) distinguishable from a write the
//! engine rejected. Every variant that reports an engine or I/O failure
//! carries the underlying cause as text, so no failure is swallowed.

use vstd::prelude::*;

verus! {

/// A failure that prevents a store from being constructed. Construction is
/// all-or-nothing: when any phase fails, no store handle exists.
#[derive(Debug, PartialEq, Eq)]
pub enum BootstrapError {
    /// The database file path (or its parent directory) could not be
    /// resolved to an absolute path.
    PathResolution(String),
    /// A missing parent directory could not be created.
    DirCreation(String),
    /// The database file could not be probed for or created.
    DatabaseCreation(String),
    /// A pooled connection to the database could not be opened.
    Connection(String),
    /// A pending schema migration failed to apply.
    Migration(String),
}

/// A failure on the read or delete path.
#[derive(Debug, PartialEq, Eq)]
pub enum StorageError {
    /// The addressed entry does not exist; nothing was deleted.
    NotFound,
    /// The engine failed (I/O, connectivity, row decoding); the cause is
    /// preserved for diagnostics.
    Engine(String),
}

/// A failure on the create or update path.
#[derive(Debug, PartialEq, Eq)]
pub enum ModifyEntryError {
    /// Caller misuse: the entry to update does not exist.
    EntryNotFound,
    /// The engine rejected the write (constraint violation, connectivity
    /// loss, undecodable returned row); the cause is preserved.
    WriteRejected(String),
}

/// Interprets the engine's reply to a delete addressed at one identifier.
/// Exactly one row must have gone: none means the entry did not exist, more
/// than one means the engine malfunctioned.
pub fn delete_outcome(rows_affected: u64) -> (r: Result<(), StorageError>)
    ensures
        r is Ok <==> rows_affected == 1,
        rows_affected == 0 ==> (r matches Err(StorageError::NotFound)),
        rows_affected > 1 ==> (r matches Err(e) && e is Engine),
{
    if rows_affected == 1 {
        Ok(())
    } else if rows_affected == 0 {
        Err(StorageError::NotFound)
    } else {
        Err(StorageError::Engine("delete affected more than one row".to_owned()))
    }
}

/// Translates a read-path failure into the write-path taxonomy, preserving
/// the cause: a missing row is caller misuse, anything else is a rejected
/// write.
pub fn modify_error_of_storage(e: StorageError) -> (r: ModifyEntryError)
    ensures
        e is NotFound <==> r is EntryNotFound,
        e matches StorageError::Engine(c) ==> r == ModifyEntryError::WriteRejected(c),
{
    match e {
        StorageError::NotFound => ModifyEntryError::EntryNotFound,
        StorageError::Engine(cause) => ModifyEntryError::WriteRejected(cause),
    }
}

} // verus!
