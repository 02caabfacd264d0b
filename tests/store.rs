use toot_relay::{Store, Toot};

fn toot(id: &str, content: &str) -> Toot {
    Toot { id: id.to_string(), content: content.to_string(), created_at: 0, served: false }
}

#[test]
fn upsert_inserts_new_id() {
    let mut store = Store::new();
    assert!(store.upsert_if_absent(toot("1", "hello")));
    assert_eq!(store.len(), 1);
    assert!(store.contains_id(&"1".to_string()));
    assert!(!store.contains_id(&"2".to_string()));
}

#[test]
fn upsert_keeps_known_id_untouched() {
    let mut store = Store::new();
    assert!(store.upsert_if_absent(toot("1", "first")));
    assert_eq!(store.take_next_unserved(), Some("first".to_string()));
    assert!(!store.upsert_if_absent(toot("1", "second")));
    assert_eq!(store.len(), 1);
    assert_eq!(store.items()[0].content, "first");
    assert!(store.items()[0].served);
}

#[test]
fn take_from_empty_store_is_none() {
    let mut store = Store::new();
    assert_eq!(store.take_next_unserved(), None);
    assert_eq!(store.served_count(), 0);
}

#[test]
fn take_marks_whole_content_group() {
    let mut store = Store::new();
    store.upsert_if_absent(toot("1", "same"));
    store.upsert_if_absent(toot("2", "other"));
    store.upsert_if_absent(toot("3", "same"));
    assert_eq!(store.take_next_unserved(), Some("same".to_string()));
    assert!(store.items()[0].served);
    assert!(!store.items()[1].served);
    assert!(store.items()[2].served);
    assert_eq!(store.served_count(), 2);
    assert_eq!(store.take_next_unserved(), Some("other".to_string()));
    assert_eq!(store.take_next_unserved(), None);
    assert_eq!(store.served_count(), 3);
}

#[test]
fn claimed_content_is_not_returned_twice() {
    let mut store = Store::new();
    store.upsert_if_absent(toot("1", "a"));
    store.upsert_if_absent(toot("2", "a"));
    store.upsert_if_absent(toot("3", "b"));
    let first = store.take_next_unserved();
    let second = store.take_next_unserved();
    assert!(first.is_some());
    assert_ne!(first, second);
}

#[test]
fn served_never_reverts() {
    let mut store = Store::new();
    store.upsert_if_absent(toot("1", "a"));
    store.take_next_unserved();
    store.upsert_if_absent(toot("2", "b"));
    store.take_next_unserved();
    store.take_next_unserved();
    assert!(store.items().iter().all(|t| t.served));
    assert_eq!(store.served_count(), 2);
}
