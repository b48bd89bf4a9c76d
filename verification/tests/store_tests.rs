use journal_store::date::Date;
use journal_store::entry::{entry_from_row, Entry, EntryDraft};
use journal_store::errors::{
    delete_outcome, modify_error_of_storage, ModifyEntryError, StorageError,
};
use journal_store::provider::DataProvider;
use journal_store::store::MemoryStore;

fn draft(title: &str, date: Date, content: &str) -> EntryDraft {
    EntryDraft { title: title.to_string(), date, content: content.to_string() }
}

#[test]
fn crud_scenario() {
    let date = Date::new(2024, 1, 1).unwrap();
    let mut store = MemoryStore::new();

    let added = store.add_entry(draft("Day 1", date, "hello")).unwrap();
    assert_eq!(
        added,
        Entry { id: 1, title: "Day 1".to_string(), date, content: "hello".to_string() }
    );

    let updated = store
        .update_entry(Entry {
            id: 1,
            title: "Day 1".to_string(),
            date,
            content: "hello world".to_string(),
        })
        .unwrap();
    assert_eq!(
        updated,
        Entry { id: 1, title: "Day 1".to_string(), date, content: "hello world".to_string() }
    );

    assert_eq!(store.remove_entry(1), Ok(()));
    assert_eq!(store.load_all_entries().unwrap(), Vec::new());
}

#[test]
fn add_returns_draft_fields_under_fresh_ids() {
    let mut store = MemoryStore::new();
    let d1 = draft("first", Date::new(2024, 3, 5).unwrap(), "a");
    let d2 = draft("second", Date::new(2025, 11, 30).unwrap(), "b");

    let e1 = store.add_entry(d1.clone()).unwrap();
    let e2 = store.add_entry(d2.clone()).unwrap();

    assert_eq!(e1.title, d1.title);
    assert_eq!(e1.date, d1.date);
    assert_eq!(e1.content, d1.content);
    assert_eq!(e2.title, d2.title);
    assert_eq!(e2.date, d2.date);
    assert_eq!(e2.content, d2.content);
    assert_ne!(e1.id, e2.id);
}

#[test]
fn ids_are_not_reused_after_removal() {
    let date = Date::new(2024, 6, 1).unwrap();
    let mut store = MemoryStore::new();
    let e1 = store.add_entry(draft("one", date, "x")).unwrap();
    store.remove_entry(e1.id).unwrap();
    let e2 = store.add_entry(draft("two", date, "y")).unwrap();
    assert_ne!(e1.id, e2.id);
}

#[test]
fn update_missing_id_fails_and_changes_nothing() {
    let date = Date::new(2024, 1, 2).unwrap();
    let mut store = MemoryStore::new();
    store.add_entry(draft("kept", date, "body")).unwrap();
    let before = store.load_all_entries().unwrap();

    let result = store.update_entry(Entry {
        id: 999,
        title: "ghost".to_string(),
        date,
        content: "nothing".to_string(),
    });
    assert_eq!(result, Err(ModifyEntryError::EntryNotFound));
    assert_eq!(store.load_all_entries().unwrap(), before);
}

#[test]
fn remove_missing_id_fails_and_changes_nothing() {
    let date = Date::new(2024, 1, 2).unwrap();
    let mut store = MemoryStore::new();
    store.add_entry(draft("kept", date, "body")).unwrap();
    let before = store.load_all_entries().unwrap();

    assert_eq!(store.remove_entry(42), Err(StorageError::NotFound));
    assert_eq!(store.load_all_entries().unwrap(), before);
}

#[test]
fn removed_id_never_listed_again() {
    let date = Date::new(2024, 2, 2).unwrap();
    let mut store = MemoryStore::new();
    let a = store.add_entry(draft("a", date, "1")).unwrap();
    let b = store.add_entry(draft("b", date, "2")).unwrap();
    let c = store.add_entry(draft("c", date, "3")).unwrap();

    store.remove_entry(b.id).unwrap();
    let listed = store.load_all_entries().unwrap();
    assert_eq!(listed.len(), 2);
    assert!(listed.iter().all(|e| e.id != b.id));
    assert!(listed.iter().any(|e| e.id == a.id));
    assert!(listed.iter().any(|e| e.id == c.id));
}

#[test]
fn update_round_trip_reflects_new_fields_and_old_id() {
    let mut store = MemoryStore::new();
    let added = store
        .add_entry(draft("before", Date::new(2024, 4, 4).unwrap(), "old text"))
        .unwrap();

    let replacement = Entry {
        id: added.id,
        title: "after".to_string(),
        date: Date::new(2025, 5, 5).unwrap(),
        content: "new text".to_string(),
    };
    let updated = store.update_entry(replacement.clone()).unwrap();
    assert_eq!(updated, replacement);

    let listed = store.load_all_entries().unwrap();
    assert_eq!(listed, vec![replacement]);
}

#[test]
fn listing_is_ascending_by_id() {
    let date = Date::new(2024, 8, 8).unwrap();
    let mut store = MemoryStore::new();
    for title in ["p", "q", "r", "s"] {
        store.add_entry(draft(title, date, "t")).unwrap();
    }
    let listed = store.load_all_entries().unwrap();
    assert_eq!(listed.len(), 4);
    for pair in listed.windows(2) {
        assert!(pair[0].id < pair[1].id);
    }
}

#[test]
fn empty_store_lists_nothing() {
    let store = MemoryStore::new();
    assert_eq!(store.load_all_entries().unwrap(), Vec::new());
}

#[test]
fn row_codec_accepts_schema_rows() {
    let e = entry_from_row(7, "title".to_string(), 20240101, "body".to_string()).unwrap();
    assert_eq!(
        e,
        Entry {
            id: 7,
            title: "title".to_string(),
            date: Date::new(2024, 1, 1).unwrap(),
            content: "body".to_string(),
        }
    );
}

#[test]
fn row_codec_rejects_bad_ids() {
    let r = entry_from_row(-1, "t".to_string(), 20240101, "c".to_string());
    assert!(matches!(r, Err(StorageError::Engine(_))));
    let r = entry_from_row((u32::MAX as i64) + 1, "t".to_string(), 20240101, "c".to_string());
    assert!(matches!(r, Err(StorageError::Engine(_))));
}

#[test]
fn row_codec_rejects_bad_dates() {
    let r = entry_from_row(1, "t".to_string(), -5, "c".to_string());
    assert!(matches!(r, Err(StorageError::Engine(_))));
    let r = entry_from_row(1, "t".to_string(), 20240230, "c".to_string());
    assert!(matches!(r, Err(StorageError::Engine(_))));
    let r = entry_from_row(1, "t".to_string(), (u32::MAX as i64) + 1, "c".to_string());
    assert!(matches!(r, Err(StorageError::Engine(_))));
}

#[test]
fn delete_outcome_wants_exactly_one_row() {
    assert_eq!(delete_outcome(1), Ok(()));
    assert_eq!(delete_outcome(0), Err(StorageError::NotFound));
    assert!(matches!(delete_outcome(2), Err(StorageError::Engine(_))));
}

#[test]
fn storage_errors_map_to_modify_errors() {
    assert_eq!(
        modify_error_of_storage(StorageError::NotFound),
        ModifyEntryError::EntryNotFound
    );
    assert_eq!(
        modify_error_of_storage(StorageError::Engine("disk gone".to_string())),
        ModifyEntryError::WriteRejected("disk gone".to_string())
    );
}
