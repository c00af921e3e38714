use notes_api::http::NoteError;
use notes_api::note::{Note, UpdateFields};
use notes_api::store::NoteStore;

fn seeded(entries: &[(u128, &str)]) -> NoteStore {
    let mut store = NoteStore::new();
    for (id, title) in entries {
        let created = store.create_at(
            title.to_string(),
            format!("content of {}", title),
            None,
            *id,
            100,
        );
        assert!(created.is_ok());
    }
    store
}

fn field_equal(a: &Note, b: &Note) {
    assert_eq!(a.id, b.id);
    assert_eq!(a.title, b.title);
    assert_eq!(a.content, b.content);
    assert_eq!(a.category, b.category);
    assert_eq!(a.published, b.published);
    assert_eq!(a.created_at, b.created_at);
    assert_eq!(a.updated_at, b.updated_at);
}

#[test]
fn create_defaults_category_and_published() {
    let mut store = NoteStore::new();
    let note = store
        .create_at("A".to_string(), "B".to_string(), None, 1, 100)
        .expect("create should succeed on an empty store");
    assert_eq!(note.title, "A");
    assert_eq!(note.content, "B");
    assert_eq!(note.category, "");
    assert!(!note.published);
    assert_eq!(note.created_at, 100);
    assert_eq!(note.updated_at, 100);
    assert_eq!(store.len(), 1);
}

#[test]
fn create_keeps_given_category() {
    let mut store = NoteStore::new();
    let note = store
        .create_at("A".to_string(), "B".to_string(), Some("work".to_string()), 1, 100)
        .expect("create should succeed on an empty store");
    assert_eq!(note.category, "work");
}

#[test]
fn create_duplicate_title_fails() {
    let mut store = seeded(&[(1, "A")]);
    let result = store.create_at("A".to_string(), "other".to_string(), None, 2, 200);
    assert_eq!(result.unwrap_err(), NoteError::DuplicateKey);
    assert_eq!(store.len(), 1);
}

#[test]
fn create_id_collision_is_store_error() {
    let mut store = seeded(&[(1, "A")]);
    let result = store.create_at("B".to_string(), "other".to_string(), None, 1, 200);
    assert_eq!(result.unwrap_err(), NoteError::Store);
    assert_eq!(store.len(), 1);
}

#[test]
fn create_then_get_returns_equal_note() {
    let mut store = seeded(&[(5, "E"), (1, "A")]);
    let created = store
        .create_at("C".to_string(), "body".to_string(), Some("cat".to_string()), 3, 150)
        .expect("fresh id and title");
    let fetched = store.get_by_id(3).expect("created id must be found");
    field_equal(&created, &fetched);
}

#[test]
fn get_missing_id_is_not_found() {
    let store = seeded(&[(1, "A")]);
    assert_eq!(store.get_by_id(2).unwrap_err(), NoteError::NotFound);
}

#[test]
fn list_orders_by_ascending_id_and_bounds_by_limit() {
    let store = seeded(&[(5, "E"), (1, "A"), (9, "I"), (3, "C")]);
    let all = store.list(10, 0);
    let ids: Vec<u128> = all.iter().map(|n| n.id).collect();
    assert_eq!(ids, vec![1, 3, 5, 9]);

    let first_page = store.list(2, 0);
    assert_eq!(first_page.len(), 2);
    assert_eq!(first_page[0].id, 1);
    assert_eq!(first_page[1].id, 3);

    let second_page = store.list(2, 2);
    assert_eq!(second_page.len(), 2);
    assert_eq!(second_page[0].id, 5);
    assert_eq!(second_page[1].id, 9);
}

#[test]
fn list_on_empty_store_is_empty() {
    let store = NoteStore::new();
    assert!(store.list(10, 0).is_empty());
}

#[test]
fn list_offset_beyond_end_is_empty() {
    let store = seeded(&[(1, "A"), (2, "B")]);
    assert!(store.list(10, 2).is_empty());
    assert!(store.list(10, 50).is_empty());
}

#[test]
fn list_with_zero_limit_is_empty() {
    let store = seeded(&[(1, "A")]);
    assert!(store.list(0, 0).is_empty());
}

#[test]
fn update_with_no_fields_advances_updated_at_only() {
    let mut store = seeded(&[(1, "A")]);
    let before = store.get_by_id(1).unwrap();
    let after = store.update_at(1, &UpdateFields::empty(), 500).expect("id exists");
    assert_eq!(after.id, before.id);
    assert_eq!(after.title, before.title);
    assert_eq!(after.content, before.content);
    assert_eq!(after.category, before.category);
    assert_eq!(after.published, before.published);
    assert_eq!(after.created_at, before.created_at);
    assert_eq!(after.updated_at, 500);
    assert!(after.updated_at > before.updated_at);
}

#[test]
fn update_published_only_keeps_other_fields() {
    let mut store = seeded(&[(1, "A")]);
    let before = store.get_by_id(1).unwrap();
    let change = UpdateFields { title: None, content: None, category: None, published: Some(true) };
    let after = store.update_at(1, &change, 500).expect("id exists");
    assert_eq!(after.title, before.title);
    assert_eq!(after.content, before.content);
    assert_eq!(after.category, before.category);
    assert!(after.published);
    let fetched = store.get_by_id(1).unwrap();
    assert!(fetched.published);
    assert_eq!(fetched.title, before.title);
}

#[test]
fn update_replaces_supplied_fields() {
    let mut store = seeded(&[(1, "A")]);
    let change = UpdateFields {
        title: Some("New".to_string()),
        content: Some("New body".to_string()),
        category: Some("new cat".to_string()),
        published: None,
    };
    let after = store.update_at(1, &change, 500).expect("id exists");
    assert_eq!(after.title, "New");
    assert_eq!(after.content, "New body");
    assert_eq!(after.category, "new cat");
    assert!(!after.published);
}

#[test]
fn update_missing_id_is_not_found() {
    let mut store = seeded(&[(1, "A")]);
    let result = store.update_at(2, &UpdateFields::empty(), 500);
    assert_eq!(result.unwrap_err(), NoteError::NotFound);
}

#[test]
fn update_to_taken_title_is_store_error() {
    let mut store = seeded(&[(1, "A"), (2, "B")]);
    let change = UpdateFields {
        title: Some("A".to_string()),
        content: None,
        category: None,
        published: None,
    };
    let result = store.update_at(2, &change, 500);
    assert_eq!(result.unwrap_err(), NoteError::Store);
    assert_eq!(store.get_by_id(2).unwrap().title, "B");
}

#[test]
fn update_to_own_title_succeeds() {
    let mut store = seeded(&[(1, "A"), (2, "B")]);
    let change = UpdateFields {
        title: Some("B".to_string()),
        content: None,
        category: None,
        published: None,
    };
    let after = store.update_at(2, &change, 500).expect("own title is no collision");
    assert_eq!(after.title, "B");
}

#[test]
fn delete_missing_id_is_not_found() {
    let mut store = seeded(&[(1, "A")]);
    assert_eq!(store.delete(2).unwrap_err(), NoteError::NotFound);
    assert_eq!(store.len(), 1);
}

#[test]
fn delete_then_get_is_not_found() {
    let mut store = seeded(&[(1, "A"), (2, "B")]);
    store.delete(1).expect("id exists");
    assert_eq!(store.get_by_id(1).unwrap_err(), NoteError::NotFound);
    assert_eq!(store.len(), 1);
    assert_eq!(store.get_by_id(2).unwrap().title, "B");
}

#[test]
fn create_on_empty_store_always_succeeds() {
    let mut store = NoteStore::new();
    let note = store
        .create("A".to_string(), "B".to_string(), None)
        .expect("an empty store has no title and no id to collide with");
    assert_eq!(note.title, "A");
    assert_eq!(store.len(), 1);
}

#[test]
fn create_with_generated_id_and_clock() {
    let mut store = NoteStore::new();
    let first = store.create("A".to_string(), "B".to_string(), None).expect("empty store");
    assert_eq!(first.category, "");
    assert!(!first.published);
    assert_eq!(first.created_at, first.updated_at);

    let second = store.create("C".to_string(), "D".to_string(), None).expect("fresh title");
    assert_ne!(first.id, second.id);
    assert_eq!(store.len(), 2);

    let duplicate = store.create("A".to_string(), "again".to_string(), None);
    assert_eq!(duplicate.unwrap_err(), NoteError::DuplicateKey);
}

#[test]
fn update_with_clock_keeps_record_well_formed() {
    let mut store = NoteStore::new();
    let created = store.create("A".to_string(), "B".to_string(), None).expect("empty store");
    let change = UpdateFields { title: None, content: None, category: None, published: Some(true) };
    let after = store.update(created.id, &change).expect("id exists");
    assert!(after.published);
    assert!(after.updated_at >= after.created_at);
    assert_eq!(after.created_at, created.created_at);
}
