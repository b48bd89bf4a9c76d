//! A verified in-memory storage backend.
//!
//! [`MemoryStore`] is the reference implementation of [`DataProvider`]: the
//! CRUD protocol's semantics, proved rather than trusted. It keeps its
//! entries in a vector sorted by identifier and assigns identifiers from a
//! counter that starts at 1 and never moves backwards, so identifiers are
//! never reused.

use vstd::prelude::*;

use crate::entry::{Entry, EntryDraft};
use crate::errors::{ModifyEntryError, StorageError};
use crate::provider::{listing_of, DataProvider};

verus! {

/// Identifiers strictly increase along the vector.
pub open spec fn sorted_ids(s: Seq<Entry>) -> bool {
    forall|i: int, j: int| 0 <= i < j < s.len() ==> s[i].id < s[j].id
}

/// The map persisted by a vector of entries: each entry under its own
/// identifier, later duplicates (which a sorted vector never has) winning.
pub open spec fn map_of(s: Seq<Entry>) -> Map<u32, Entry>
    decreases s.len(),
{
    if s.len() == 0 {
        Map::empty()
    } else {
        map_of(s.drop_last()).insert(s.last().id, s.last())
    }
}

/// `map_of` holds an identifier exactly when some element carries it.
pub proof fn lemma_map_of_contains(s: Seq<Entry>, id: u32)
    ensures
        map_of(s).contains_key(id) <==> exists|i: int| 0 <= i < s.len() && s[i].id == id,
    decreases s.len(),
{
    if s.len() > 0 {
        lemma_map_of_contains(s.drop_last(), id);
        if map_of(s).contains_key(id) {
            if id == s.last().id {
                assert(s[s.len() - 1].id == id);
            } else {
                let i = choose|i: int| 0 <= i < s.drop_last().len() && s.drop_last()[i].id == id;
                assert(s[i].id == id);
            }
        }
        if exists|i: int| 0 <= i < s.len() && s[i].id == id {
            let i = choose|i: int| 0 <= i < s.len() && s[i].id == id;
            if i < s.len() - 1 {
                assert(s.drop_last()[i].id == id);
            }
        }
    }
}

/// In a sorted vector, `map_of` maps each element's identifier to that
/// element.
pub proof fn lemma_map_of_index(s: Seq<Entry>, i: int)
    requires
        sorted_ids(s),
        0 <= i < s.len(),
    ensures
        map_of(s).contains_key(s[i].id),
        map_of(s)[s[i].id] == s[i],
    decreases s.len(),
{
    if i < s.len() - 1 {
        assert(sorted_ids(s.drop_last()));
        assert(s.drop_last()[i] == s[i]);
        lemma_map_of_index(s.drop_last(), i);
        assert(s[i].id != s.last().id);
    }
}

/// A sorted vector is a listing of its own map.
pub proof fn lemma_sorted_listing(s: Seq<Entry>)
    requires
        sorted_ids(s),
    ensures
        listing_of(map_of(s), s),
{
    assert forall|i: int| 0 <= i < s.len() implies map_of(s).contains_key(#[trigger] s[i].id)
        && map_of(s)[s[i].id] == s[i] by {
        lemma_map_of_index(s, i);
    }
    assert forall|id: u32| #[trigger] map_of(s).contains_key(id) implies exists|i: int|
        0 <= i < s.len() && s[i].id == id by {
        lemma_map_of_contains(s, id);
    }
}

/// Appending an entry inserts it into the map.
pub proof fn lemma_map_of_push(s: Seq<Entry>, e: Entry)
    ensures
        map_of(s.push(e)) == map_of(s).insert(e.id, e),
{
    assert(s.push(e).drop_last() =~= s);
    assert(s.push(e).last() == e);
}

/// Replacing the element at `i` by one with the same identifier re-inserts
/// that identifier in the map.
pub proof fn lemma_map_of_update(s: Seq<Entry>, i: int, e: Entry)
    requires
        sorted_ids(s),
        0 <= i < s.len(),
        s[i].id == e.id,
    ensures
        map_of(s.update(i, e)) == map_of(s).insert(e.id, e),
    decreases s.len(),
{
    let t = s.update(i, e);
    if i == s.len() - 1 {
        assert(t.drop_last() =~= s.drop_last());
        assert(t.last() == e);
        assert(map_of(s.drop_last()).insert(s.last().id, s.last()).insert(e.id, e)
            =~= map_of(s.drop_last()).insert(e.id, e));
    } else {
        assert(sorted_ids(s.drop_last()));
        assert(s.drop_last()[i] == s[i]);
        lemma_map_of_update(s.drop_last(), i, e);
        assert(t.drop_last() =~= s.drop_last().update(i, e));
        assert(t.last() == s.last());
        assert(e.id != s.last().id);
        assert(map_of(s.drop_last()).insert(e.id, e).insert(s.last().id, s.last())
            =~= map_of(s.drop_last()).insert(s.last().id, s.last()).insert(e.id, e));
    }
}

/// Removing the element at `i` removes exactly its identifier from the map.
pub proof fn lemma_map_of_remove(s: Seq<Entry>, i: int)
    requires
        sorted_ids(s),
        0 <= i < s.len(),
    ensures
        map_of(s.remove(i)) == map_of(s).remove(s[i].id),
    decreases s.len(),
{
    let t = s.remove(i);
    if i == s.len() - 1 {
        assert(t =~= s.drop_last());
        lemma_map_of_contains(s.drop_last(), s[i].id);
        assert(forall|j: int|
            0 <= j < s.drop_last().len() ==> (#[trigger] s.drop_last()[j].id) != s[i].id);
        assert(map_of(s.drop_last()).insert(s.last().id, s.last()).remove(s[i].id)
            =~= map_of(s.drop_last()));
    } else {
        assert(sorted_ids(s.drop_last()));
        assert(s.drop_last()[i] == s[i]);
        lemma_map_of_remove(s.drop_last(), i);
        assert(t.drop_last() =~= s.drop_last().remove(i));
        assert(t.last() == s.last());
        assert(s[i].id != s.last().id);
        assert(map_of(s.drop_last()).remove(s[i].id).insert(s.last().id, s.last())
            =~= map_of(s.drop_last()).insert(s.last().id, s.last()).remove(s[i].id));
    }
}

/// An in-memory backend: entries in a vector sorted by identifier, fresh
/// identifiers from a counter.
pub struct MemoryStore {
    entries: Vec<Entry>,
    next_id: u32,
    created: Ghost<Set<u32>>,
}

impl MemoryStore {
    /// An empty store; the first assigned identifier is 1.
    pub fn new() -> (r: MemoryStore)
        ensures
            r.inv(),
            r.entries() == Map::<u32, Entry>::empty(),
            r.created_ids() == Set::<u32>::empty(),
            !r.exhausted(),
    {
        let r = MemoryStore { entries: Vec::new(), next_id: 1, created: Ghost(Set::empty()) };
        proof {
            assert(r.entries@ =~= Seq::<Entry>::empty());
        }
        r
    }

    /// Index of the entry carrying `id`, if any.
    fn find_index(&self, id: u32) -> (r: Option<usize>)
        ensures
            r matches Some(i) ==> i < self.entries@.len() && self.entries@[i as int].id == id,
            r is None ==> forall|i: int| 0 <= i < self.entries@.len() ==> (#[trigger] self
                .entries@[i].id) != id,
    {
        let mut i: usize = 0;
        while i < self.entries.len()
            invariant
                i <= self.entries@.len(),
                forall|j: int| 0 <= j < i ==> (#[trigger] self.entries@[j].id) != id,
            decreases self.entries@.len() - i,
        {
            if self.entries[i].id == id {
                return Some(i);
            }
            i = i + 1;
        }
        None
    }
}

impl DataProvider for MemoryStore {
    closed spec fn entries(&self) -> Map<u32, Entry> {
        map_of(self.entries@)
    }

    closed spec fn created_ids(&self) -> Set<u32> {
        self.created@
    }

    closed spec fn exhausted(&self) -> bool {
        self.next_id == u32::MAX
    }

    closed spec fn inv(&self) -> bool {
        &&& sorted_ids(self.entries@)
        &&& forall|i: int|
            0 <= i < self.entries@.len() ==> self.created@.contains(
                #[trigger] self.entries@[i].id,
            )
        &&& forall|id: u32| #[trigger] self.created@.contains(id) ==> id < self.next_id
    }

    proof fn lemma_entries_wf(&self) {
        assert forall|id: u32| #[trigger] map_of(self.entries@).contains_key(id) implies map_of(
            self.entries@,
        )[id].id == id && self.created@.contains(id) by {
            lemma_map_of_contains(self.entries@, id);
            let i = choose|i: int| 0 <= i < self.entries@.len() && self.entries@[i].id == id;
            lemma_map_of_index(self.entries@, i);
        }
    }

    fn load_all_entries(&self) -> (r: Result<Vec<Entry>, StorageError>)
        ensures
            r is Ok,
    {
        let mut out: Vec<Entry> = Vec::new();
        let mut i: usize = 0;
        while i < self.entries.len()
            invariant
                i <= self.entries@.len(),
                out@ =~= self.entries@.subrange(0, i as int),
            decreases self.entries@.len() - i,
        {
            out.push(self.entries[i].clone());
            proof {
                assert(out@ =~= self.entries@.subrange(0, i + 1 as int));
            }
            i = i + 1;
        }
        proof {
            assert(out@ =~= self.entries@);
            lemma_sorted_listing(self.entries@);
        }
        Ok(out)
    }

    fn add_entry(&mut self, draft: EntryDraft) -> (r: Result<Entry, ModifyEntryError>) {
        if self.next_id == u32::MAX {
            return Err(ModifyEntryError::WriteRejected("identifier space exhausted".to_owned()));
        }
        let id = self.next_id;
        let stored = Entry { id, title: draft.title, date: draft.date, content: draft.content };
        let returned = stored.clone();
        proof {
            lemma_map_of_push(self.entries@, stored);
        }
        self.entries.push(stored);
        self.next_id = id + 1;
        self.created = Ghost(self.created@.insert(id));
        Ok(returned)
    }

    fn update_entry(&mut self, entry: Entry) -> (r: Result<Entry, ModifyEntryError>) {
        match self.find_index(entry.id) {
            Some(i) => {
                let returned = entry.clone();
                proof {
                    lemma_map_of_update(self.entries@, i as int, entry);
                    lemma_map_of_index(self.entries@, i as int);
                }
                self.entries[i] = entry;
                Ok(returned)
            },
            None => {
                proof {
                    lemma_map_of_contains(self.entries@, entry.id);
                }
                Err(ModifyEntryError::EntryNotFound)
            },
        }
    }

    fn remove_entry(&mut self, id: u32) -> (r: Result<(), StorageError>) {
        match self.find_index(id) {
            Some(i) => {
                proof {
                    lemma_map_of_remove(self.entries@, i as int);
                    lemma_map_of_index(self.entries@, i as int);
                }
                let _ = self.entries.remove(i);
                Ok(())
            },
            None => {
                proof {
                    lemma_map_of_contains(self.entries@, id);
                }
                Err(StorageError::NotFound)
            },
        }
    }
}

} // verus!
