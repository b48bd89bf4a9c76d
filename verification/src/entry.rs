//! The journal entry record and the row codec.
//!
//! An [`Entry`] is a persisted record: identifier, title, date, free-text
//! content. An [`EntryDraft`] is what a caller supplies to create one — the
//! same fields without an identifier, because none exists yet.
//!
//! The store persists an entry as a row of four plain columns
//! (`id`, `title`, `date`, `content`), the date as its integer key.
//! [`entry_from_row`] is the verified decoder from such a row back to an
//! [`Entry`]; a row the schema could never have produced is rejected with the
//! cause preserved.

use vstd::prelude::*;

use crate::date::Date;
use crate::errors::StorageError;

verus! {

/// A persisted journal record. The identifier is assigned by the store on
/// creation and never changes afterwards; the other fields are replaced
/// wholesale by an update.
#[derive(Debug, PartialEq, Eq)]
pub struct Entry {
    pub id: u32,
    pub title: String,
    pub date: Date,
    pub content: String,
}

/// The caller-supplied fields of a not-yet-persisted entry.
#[derive(Debug, PartialEq, Eq)]
pub struct EntryDraft {
    pub title: String,
    pub date: Date,
    pub content: String,
}

impl EntryDraft {
    /// A draft is valid when its date is a calendar date. Whether empty
    /// titles or bodies are meaningful is the caller's policy: the store
    /// accepts them.
    pub open spec fn valid(self) -> bool {
        self.date.valid()
    }

    /// The entry this draft becomes once the store assigns `id`.
    pub open spec fn into_entry(self, id: u32) -> Entry {
        Entry { id, title: self.title, date: self.date, content: self.content }
    }
}

impl Clone for Entry {
    /// Clones the record; the copy equals the original.
    fn clone(&self) -> (r: Self)
        ensures
            r == *self,
    {
        Entry {
            id: self.id,
            title: self.title.clone(),
            date: self.date,
            content: self.content.clone(),
        }
    }
}

impl Clone for EntryDraft {
    /// Clones the draft; the copy equals the original.
    fn clone(&self) -> (r: Self)
        ensures
            r == *self,
    {
        EntryDraft { title: self.title.clone(), date: self.date, content: self.content.clone() }
    }
}

/// Whether the raw column values of a row decode to an entry: the identifier
/// fits the id type and the date column is the key of some calendar date.
pub open spec fn row_decodes(id: i64, date_key: i64) -> bool {
    &&& 0 <= id <= u32::MAX
    &&& 0 <= date_key <= u32::MAX
    &&& exists|d: Date| d.valid() && d.spec_key() == date_key
}

/// Decodes one raw database row into an [`Entry`].
///
/// Succeeds exactly on rows the schema can hold: a non-negative identifier
/// that fits, and a date column that is the integer key of a calendar date.
/// Anything else is an engine-side malfunction, reported — never swallowed —
/// as [`StorageError::Engine`].
pub fn entry_from_row(id: i64, title: String, date_key: i64, content: String) -> (r: Result<
    Entry,
    StorageError,
>)
    ensures
        r is Ok <==> row_decodes(id, date_key),
        r matches Ok(e) ==> {
            &&& e.id == id
            &&& e.title == title
            &&& e.date.valid()
            &&& e.date.spec_key() == date_key
            &&& e.content == content
        },
        r matches Err(err) ==> err is Engine,
{
    if id < 0 || id > u32::MAX as i64 {
        return Err(StorageError::Engine("row id out of range".to_owned()));
    }
    if date_key < 0 || date_key > u32::MAX as i64 {
        return Err(StorageError::Engine("row date out of range".to_owned()));
    }
    match Date::from_key(date_key as u32) {
        Some(date) => Ok(Entry { id: id as u32, title, date, content }),
        None => Err(StorageError::Engine("row date is not a calendar date".to_owned())),
    }
}

} // verus!
