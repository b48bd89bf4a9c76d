//! The storage capability contract.
//!
//! [`DataProvider`] is the abstract capability set every storage backend
//! must supply: create, read-all, update, delete over [`Entry`] records.
//! Callers are polymorphic over the backend; the contract is stated against
//! two abstractions every backend carries — the map of currently persisted
//! entries keyed by identifier, and the set of every identifier the backend
//! has ever assigned (so freshness of new identifiers is a stated guarantee,
//! not a convention).

use vstd::prelude::*;

use crate::entry::{Entry, EntryDraft};
use crate::errors::{ModifyEntryError, StorageError};

verus! {

/// Whether `v` lists exactly the entries of `m`, in ascending identifier
/// order: every listed entry is persisted under its own identifier, every
/// persisted identifier is listed, and identifiers strictly increase (so the
/// listing is deterministic and free of duplicates).
pub open spec fn listing_of(m: Map<u32, Entry>, v: Seq<Entry>) -> bool {
    &&& forall|i: int|
        0 <= i < v.len() ==> m.contains_key(#[trigger] v[i].id) && m[v[i].id] == v[i]
    &&& forall|id: u32|
        #[trigger] m.contains_key(id) ==> exists|i: int| 0 <= i < v.len() && v[i].id == id
    &&& forall|i: int, j: int| 0 <= i < j < v.len() ==> v[i].id < v[j].id
}

/// The capability set of a storage backend.
///
/// The four operations are the only sanctioned way to observe or mutate the
/// backend's durable state, and the contract below is what every backend
/// owes its callers:
///
/// * identifiers are assigned by the backend, are never reused, and never
///   change;
/// * a successful create returns the draft's fields under the fresh
///   identifier;
/// * update and delete address one entry by identifier and report a missing
///   identifier as exactly the "not found" variant of their error family;
/// * a failed operation leaves the persisted entries unchanged.
pub trait DataProvider: Sized {
    /// The entries currently persisted, keyed by identifier.
    spec fn entries(&self) -> Map<u32, Entry>;

    /// Every identifier the backend has ever assigned, including those of
    /// entries since removed.
    spec fn created_ids(&self) -> Set<u32>;

    /// Whether the backend has run out of fresh identifiers to assign.
    spec fn exhausted(&self) -> bool;

    /// The backend's internal well-formedness.
    spec fn inv(&self) -> bool;

    /// Persisted entries sit under their own identifier, and their
    /// identifiers were assigned by the backend.
    proof fn lemma_entries_wf(&self)
        requires
            self.inv(),
        ensures
            forall|id: u32|
                #[trigger] self.entries().contains_key(id) ==> self.entries()[id].id == id
                    && self.created_ids().contains(id),
    ;

    /// Returns every stored entry, in ascending identifier order.
    fn load_all_entries(&self) -> (r: Result<Vec<Entry>, StorageError>)
        requires
            self.inv(),
        ensures
            r matches Ok(v) ==> listing_of(self.entries(), v@),
    ;

    /// Persists a draft under a freshly assigned identifier and returns the
    /// persisted entry. Fails only when no fresh identifier is left.
    fn add_entry(&mut self, draft: EntryDraft) -> (r: Result<Entry, ModifyEntryError>)
        requires
            old(self).inv(),
            draft.valid(),
        ensures
            final(self).inv(),
            r is Ok <==> !old(self).exhausted(),
            r matches Ok(e) ==> {
                &&& e == draft.into_entry(e.id)
                &&& !old(self).created_ids().contains(e.id)
                &&& final(self).entries() == old(self).entries().insert(e.id, e)
                &&& final(self).created_ids() == old(self).created_ids().insert(e.id)
            },
            r is Err ==> *final(self) == *old(self),
    ;

    /// Replaces the title, date and content persisted under `entry.id` and
    /// returns the updated entry. Fails exactly when no entry is persisted
    /// under that identifier, and then changes nothing.
    fn update_entry(&mut self, entry: Entry) -> (r: Result<Entry, ModifyEntryError>)
        requires
            old(self).inv(),
            entry.date.valid(),
        ensures
            final(self).inv(),
            final(self).created_ids() == old(self).created_ids(),
            final(self).exhausted() == old(self).exhausted(),
            r is Ok <==> old(self).entries().contains_key(entry.id),
            r matches Ok(e) ==> {
                &&& e == entry
                &&& final(self).entries() == old(self).entries().insert(entry.id, entry)
            },
            r is Err ==> (r matches Err(ModifyEntryError::EntryNotFound)) && *final(self) == *old(
                self,
            ),
    ;

    /// Deletes the entry persisted under `id`. Fails exactly when no entry
    /// is persisted under that identifier, and then changes nothing.
    fn remove_entry(&mut self, id: u32) -> (r: Result<(), StorageError>)
        requires
            old(self).inv(),
        ensures
            final(self).inv(),
            final(self).created_ids() == old(self).created_ids(),
            final(self).exhausted() == old(self).exhausted(),
            r is Ok <==> old(self).entries().contains_key(id),
            r is Ok ==> final(self).entries() == old(self).entries().remove(id),
            r is Err ==> (r matches Err(StorageError::NotFound)) && *final(self) == *old(self),
    ;
}

/// A deleted identifier never shows up in a subsequent full listing: once
/// `id` is removed from the persisted map, no listing of that map contains
/// an entry carrying `id`.
pub proof fn lemma_removed_id_absent(m: Map<u32, Entry>, id: u32, v: Seq<Entry>)
    requires
        listing_of(m.remove(id), v),
    ensures
        forall|i: int| 0 <= i < v.len() ==> (#[trigger] v[i].id) != id,
{
    assert forall|i: int| 0 <= i < v.len() implies (#[trigger] v[i].id) != id by {
        assert(m.remove(id).contains_key(v[i].id));
    }
}

/// Round trip: an entry persisted under `id` and then updated to `e` is
/// listed back exactly once, with exactly the updated fields and the
/// original identifier.
pub proof fn lemma_update_round_trip(m: Map<u32, Entry>, id: u32, e: Entry, v: Seq<Entry>)
    requires
        e.id == id,
        listing_of(m.insert(id, e), v),
    ensures
        exists|i: int| 0 <= i < v.len() && v[i] == e,
        forall|i: int| 0 <= i < v.len() && (#[trigger] v[i].id) == id ==> v[i] == e,
{
    assert(m.insert(id, e).contains_key(id));
    let i = choose|i: int| 0 <= i < v.len() && v[i].id == id;
    assert(v[i] == m.insert(id, e)[id]);
    assert(v[i] == e);
    assert forall|j: int| 0 <= j < v.len() && (#[trigger] v[j].id) == id implies v[j] == e by {
        assert(v[j] == m.insert(id, e)[id]);
    }
}

} // verus!
