use toot_relay::{
    ingest_cycle, ingest_now, IngestPolicy, Store, TootIn, MIN_CONTENT_LEN, RECENCY_WINDOW_MS,
};

const NOW: i64 = 1_700_000_000_000;

fn policy(extract_quoted: bool) -> IngestPolicy {
    IngestPolicy { window_ms: RECENCY_WINDOW_MS, min_len: MIN_CONTENT_LEN, extract_quoted }
}

fn post(id: &str, content: &str, created_at: i64) -> TootIn {
    TootIn { id: id.to_string(), content: content.to_string(), created_at }
}

#[test]
fn default_window_is_five_days() {
    assert_eq!(RECENCY_WINDOW_MS, 5 * 24 * 60 * 60 * 1000);
    assert_eq!(MIN_CONTENT_LEN, 10);
}

#[test]
fn same_id_is_stored_once_across_cycles() {
    let mut store = Store::new();
    for _ in 0..3 {
        let posts = vec![
            post("1", "<p>first version here</p>", NOW),
            post("1", "<p>second version here</p>", NOW),
        ];
        ingest_cycle(&mut store, posts, NOW, policy(false));
    }
    assert_eq!(store.len(), 1);
    assert_eq!(store.items()[0].content.trim_end(), "first version here");
}

#[test]
fn old_and_short_posts_are_filtered() {
    let mut store = Store::new();
    let posts = vec![
        post("old", "<p>an old but long post</p>", NOW - RECENCY_WINDOW_MS),
        post("short", "<p>hi</p>", NOW),
        post("ok", "<p>a recent long post</p>", NOW - RECENCY_WINDOW_MS + 1),
    ];
    let rejected = ingest_cycle(&mut store, posts, NOW, policy(false));
    assert_eq!(rejected, 0);
    assert_eq!(store.len(), 1);
    assert_eq!(store.items()[0].id, "ok");
}

#[test]
fn length_threshold_is_exclusive() {
    let mut store = Store::new();
    let posts = vec![post("ten", "0123456789", NOW), post("eleven", "0123456789a", NOW)];
    ingest_cycle(&mut store, posts, NOW, policy(false));
    assert_eq!(store.len(), 1);
    assert_eq!(store.items()[0].id, "eleven");
}

#[test]
fn unquoted_post_is_dropped_and_counted() {
    let mut store = Store::new();
    let posts = vec![
        post("1", "<p>no quotes in this one</p>", NOW),
        post("2", "<p>\"quoted\" words here</p>", NOW),
    ];
    let rejected = ingest_cycle(&mut store, posts, NOW, policy(true));
    assert_eq!(rejected, 1);
    assert_eq!(store.len(), 1);
    assert_eq!(store.items()[0].id, "2");
    assert_eq!(store.items()[0].content, "quoted");
}

#[test]
fn ingest_now_keeps_fresh_posts() {
    let mut store = Store::new();
    let posts = vec![post("1", "<p>\"Hello world\"</p>", i64::MAX)];
    let rejected = ingest_now(&mut store, posts, policy(true));
    assert_eq!(rejected, 0);
    assert_eq!(store.len(), 1);
    assert_eq!(store.items()[0].content, "Hello world");
}
