use notes_service::notes::{error_status, NoteError, NotePatch, NoteStore};

#[test]
fn create_then_get_matches() {
    let mut store = NoteStore::new();
    let note = store.create("T".to_string(), "C".to_string(), 100).unwrap();
    assert_eq!(note.title, "T");
    assert_eq!(note.content, "C");
    assert_eq!(note.created_at, note.updated_at);
    let got = store.get_by_id(note.id).unwrap();
    assert_eq!(got.id, note.id);
    assert_eq!(got.title, "T");
    assert_eq!(got.content, "C");
    assert_eq!(got.created_at, 100);
    assert_eq!(got.updated_at, 100);
}

#[test]
fn ids_are_positive_and_ascending() {
    let mut store = NoteStore::new();
    let a = store.create("a".to_string(), "x".to_string(), 1).unwrap();
    let b = store.create("b".to_string(), "y".to_string(), 2).unwrap();
    assert!(a.id >= 1);
    assert!(b.id > a.id);
}

#[test]
fn create_rejects_empty_title() {
    let mut store = NoteStore::new();
    let r = store.create("".to_string(), "body".to_string(), 1);
    assert!(matches!(r, Err(NoteError::ValidationError)));
}

#[test]
fn create_rejects_empty_content() {
    let mut store = NoteStore::new();
    let r = store.create("title".to_string(), "".to_string(), 1);
    assert!(matches!(r, Err(NoteError::ValidationError)));
}

#[test]
fn patch_title_changes_only_title() {
    let mut store = NoteStore::new();
    let note = store.create("T".to_string(), "C".to_string(), 100).unwrap();
    let p = NotePatch { title: Some("T2".to_string()), content: None };
    let updated = store.patch(note.id, &p, 150).unwrap();
    assert_eq!(updated.title, "T2");
    assert_eq!(updated.content, "C");
    assert_eq!(updated.created_at, 100);
    assert!(updated.updated_at >= note.updated_at);
    assert_eq!(updated.updated_at, 150);
    let got = store.get_by_id(note.id).unwrap();
    assert_eq!(got.title, "T2");
    assert_eq!(got.content, "C");
}

#[test]
fn patch_content_changes_only_content() {
    let mut store = NoteStore::new();
    let note = store.create("T".to_string(), "C".to_string(), 100).unwrap();
    let p = NotePatch { title: None, content: Some("C2".to_string()) };
    let updated = store.patch(note.id, &p, 120).unwrap();
    assert_eq!(updated.title, "T");
    assert_eq!(updated.content, "C2");
}

#[test]
fn empty_patch_refreshes_timestamp_only() {
    let mut store = NoteStore::new();
    let note = store.create("T".to_string(), "C".to_string(), 100).unwrap();
    let p = NotePatch { title: None, content: None };
    let updated = store.patch(note.id, &p, 130).unwrap();
    assert_eq!(updated.title, "T");
    assert_eq!(updated.content, "C");
    assert_eq!(updated.created_at, 100);
    assert_eq!(updated.updated_at, 130);
}

#[test]
fn patch_never_moves_updated_at_backwards() {
    let mut store = NoteStore::new();
    let note = store.create("T".to_string(), "C".to_string(), 100).unwrap();
    let p = NotePatch { title: Some("T2".to_string()), content: None };
    let updated = store.patch(note.id, &p, 40).unwrap();
    assert_eq!(updated.updated_at, 100);
    assert!(updated.updated_at >= note.updated_at);
}

#[test]
fn patch_unknown_id_is_not_found() {
    let mut store = NoteStore::new();
    let p = NotePatch { title: Some("x".to_string()), content: None };
    let r = store.patch(7, &p, 1);
    assert!(matches!(r, Err(NoteError::NotFound)));
}

#[test]
fn delete_then_get_is_not_found_and_delete_is_idempotent_failure() {
    let mut store = NoteStore::new();
    let note = store.create("T".to_string(), "C".to_string(), 1).unwrap();
    assert!(store.delete(note.id).is_ok());
    let got = store.get_by_id(note.id);
    assert!(matches!(got, Err(NoteError::NotFound)));
    let again = store.delete(note.id);
    assert!(matches!(again, Err(NoteError::NotFound)));
}

#[test]
fn get_unknown_id_is_not_found() {
    let store = NoteStore::new();
    assert!(matches!(store.get_by_id(1), Err(NoteError::NotFound)));
}

#[test]
fn list_pages_in_id_order() {
    let mut store = NoteStore::new();
    let a = store.create("a".to_string(), "1".to_string(), 1).unwrap();
    let b = store.create("b".to_string(), "2".to_string(), 2).unwrap();
    let c = store.create("c".to_string(), "3".to_string(), 3).unwrap();
    let first = store.list(1, 2);
    assert_eq!(first.len(), 2);
    assert_eq!(first[0].id, a.id);
    assert_eq!(first[1].id, b.id);
    let second = store.list(2, 2);
    assert_eq!(second.len(), 1);
    assert_eq!(second[0].id, c.id);
}

#[test]
fn list_page_beyond_end_is_empty() {
    let mut store = NoteStore::new();
    store.create("a".to_string(), "1".to_string(), 1).unwrap();
    store.create("b".to_string(), "2".to_string(), 2).unwrap();
    store.create("c".to_string(), "3".to_string(), 3).unwrap();
    let page = store.list(9999, 10);
    assert!(page.is_empty());
}

#[test]
fn list_page_zero_reads_as_first_page() {
    let mut store = NoteStore::new();
    let a = store.create("a".to_string(), "1".to_string(), 1).unwrap();
    let page = store.list(0, 10);
    assert_eq!(page.len(), 1);
    assert_eq!(page[0].id, a.id);
}

#[test]
fn error_statuses_map_one_to_one() {
    assert_eq!(error_status(&NoteError::ValidationError), 400);
    assert_eq!(error_status(&NoteError::NotFound), 404);
    assert_eq!(error_status(&NoteError::StoreUnavailable), 503);
    assert_eq!(error_status(&NoteError::MalformedRequest), 400);
}

#[test]
fn note_lifecycle_scenario() {
    let mut store = NoteStore::new();
    let created = store.create("A".to_string(), "B".to_string(), 10).unwrap();
    assert!(created.id >= 1);
    let got = store.get_by_id(created.id).unwrap();
    assert_eq!(got.title, "A");
    assert_eq!(got.content, "B");
    assert!(store.delete(created.id).is_ok());
    match store.get_by_id(created.id) {
        Err(e) => assert_eq!(error_status(&e), 404),
        Ok(_) => panic!("deleted note was found"),
    }
}
