//! Persistence layer for a journal application: titled, dated, free-text
//! entries behind an abstract storage capability.
//!
//! The crate separates what is proved from what must be left to the
//! operating system and the embedded database engine:
//!
//! * [`date`] models the temporal value carried by every entry as a plain
//!   calendar date with a verified integer encoding.
//! * [`entry`] holds the [`entry::Entry`] record and the verified row codec
//!   that maps raw database rows back to entries.
//! * [`errors`] is the error taxonomy: bootstrap failures, read/delete
//!   failures, and write failures with caller misuse kept distinguishable.
//! * [`provider`] is the storage capability contract every backend owes its
//!   callers, stated over the map of persisted entries and the set of
//!   identifiers ever assigned.
//! * [`store`] is a verified in-memory backend: the reference semantics of
//!   the CRUD protocol.
//! * [`bootstrap`] is the decision core of database bootstrap (path
//!   resolution, database creation, migration order) as a verified state
//!   machine; an I/O shell performs each state's action and reports the
//!   outcome back.

pub mod bootstrap;
pub mod date;
pub mod entry;
pub mod errors;
pub mod provider;
pub mod store;
