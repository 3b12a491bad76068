use lortex::in_memory::InMemoryStore;
use lortex::memory::{RetrieveOptions, SearchOptions};
use lortex::message::{Message, Timestamp};
use lortex::sliding_window::SlidingWindowMemory;

fn ts(secs: i64) -> Timestamp {
    Timestamp { secs, nanos: 0 }
}

fn numbered(prefix: &str, n: usize) -> Vec<Message> {
    (0..n).map(|i| Message::user(&format!("{prefix}{i}"))).collect()
}

#[test]
fn store_and_get_messages() {
    let mut store = InMemoryStore::new();
    let msgs = vec![Message::user("hello"), Message::assistant("hi")];
    store.store_messages("s1", &msgs).unwrap();
    let retrieved = store.get_messages("s1", RetrieveOptions::default()).unwrap();
    assert_eq!(retrieved.len(), 2);
    assert_eq!(retrieved[0].text(), Some("hello"));
    assert_eq!(retrieved[1].text(), Some("hi"));
}

#[test]
fn get_messages_empty_session() {
    let store = InMemoryStore::new();
    let retrieved = store.get_messages("nonexistent", RetrieveOptions::default()).unwrap();
    assert!(retrieved.is_empty());
}

#[test]
fn in_memory_get_messages_with_limit_and_offset() {
    let mut store = InMemoryStore::new();
    store.store_messages("s1", &numbered("msg", 5)).unwrap();
    let opts = RetrieveOptions { limit: Some(2), offset: Some(1), after: None };
    let retrieved = store.get_messages("s1", opts).unwrap();
    assert_eq!(retrieved.len(), 2);
    assert_eq!(retrieved[0].text(), Some("msg1"));
    assert_eq!(retrieved[1].text(), Some("msg2"));
}

#[test]
fn get_messages_with_after_filter() {
    let mut store = InMemoryStore::new();
    let early = Message::user("early");
    let early_ts = early.timestamp;
    store.store_messages("s1", &[early]).unwrap();
    let late = Message::user("late");
    let late_ts = late.timestamp;
    store.store_messages("s1", &[late]).unwrap();
    let opts = RetrieveOptions { after: Some(late_ts), ..Default::default() };
    let retrieved = store.get_messages("s1", opts).unwrap();
    assert!(retrieved.iter().all(|m| m.timestamp >= late_ts));
    assert!(retrieved.iter().all(|m| m.text() != Some("early") || early_ts >= late_ts));
}

#[test]
fn after_filter_uses_timestamps() {
    let mut store = InMemoryStore::new();
    let mut a = Message::user("a");
    a.timestamp = ts(10);
    let mut b = Message::user("b");
    b.timestamp = ts(20);
    let mut c = Message::user("c");
    c.timestamp = ts(30);
    store.store_messages("s", &[a, b, c]).unwrap();
    let opts = RetrieveOptions { after: Some(ts(20)), limit: Some(1), offset: None };
    let got = store.get_messages("s", opts).unwrap();
    assert_eq!(got.len(), 1);
    assert_eq!(got[0].text(), Some("b"));
}

#[test]
fn store_appends_to_existing_session() {
    let mut store = InMemoryStore::new();
    store.store_messages("s1", &[Message::user("first")]).unwrap();
    store.store_messages("s1", &[Message::user("second")]).unwrap();
    let retrieved = store.get_messages("s1", RetrieveOptions::default()).unwrap();
    assert_eq!(retrieved.len(), 2);
    assert_eq!(retrieved[0].text(), Some("first"));
    assert_eq!(retrieved[1].text(), Some("second"));
}

#[test]
fn search_finds_matching_text() {
    let mut store = InMemoryStore::new();
    store
        .store_messages(
            "s1",
            &[Message::user("hello world"), Message::user("goodbye world"), Message::user("nothing here")],
        )
        .unwrap();
    let results = store.search("world", SearchOptions::default()).unwrap();
    assert_eq!(results.len(), 2);
}

#[test]
fn in_memory_search_case_insensitive() {
    let mut store = InMemoryStore::new();
    store.store_messages("s1", &[Message::user("Hello WORLD")]).unwrap();
    let results = store.search("hello world", SearchOptions::default()).unwrap();
    assert_eq!(results.len(), 1);
}

#[test]
fn search_respects_limit() {
    let mut store = InMemoryStore::new();
    store.store_messages("s1", &numbered("match ", 10)).unwrap();
    let opts = SearchOptions { limit: 3, ..Default::default() };
    let results = store.search("match", opts).unwrap();
    assert_eq!(results.len(), 3);
}

#[test]
fn search_filters_by_session_id() {
    let mut store = InMemoryStore::new();
    store.store_messages("s1", &[Message::user("target text")]).unwrap();
    store.store_messages("s2", &[Message::user("target text")]).unwrap();
    let opts = SearchOptions { session_id: Some("s1".into()), ..Default::default() };
    let results = store.search("target", opts).unwrap();
    assert_eq!(results.len(), 1);
}

#[test]
fn search_no_results() {
    let mut store = InMemoryStore::new();
    store.store_messages("s1", &[Message::user("hello")]).unwrap();
    let results = store.search("nonexistent", SearchOptions::default()).unwrap();
    assert!(results.is_empty());
}

#[test]
fn search_default_limit_is_ten() {
    assert_eq!(SearchOptions::default().limit, 10);
    let mut store = InMemoryStore::new();
    store.store_messages("s1", &numbered("hit ", 15)).unwrap();
    assert_eq!(store.search("hit", SearchOptions::default()).unwrap().len(), 10);
}

#[test]
fn in_memory_clear_removes_session() {
    let mut store = InMemoryStore::new();
    store.store_messages("s1", &[Message::user("hello")]).unwrap();
    store.clear("s1").unwrap();
    let retrieved = store.get_messages("s1", RetrieveOptions::default()).unwrap();
    assert!(retrieved.is_empty());
}

#[test]
fn clear_nonexistent_session_is_ok() {
    let mut store = InMemoryStore::new();
    store.clear("nonexistent").unwrap();
}

#[test]
fn multiple_sessions_isolated() {
    let mut store = InMemoryStore::new();
    store.store_messages("s1", &[Message::user("session1")]).unwrap();
    store.store_messages("s2", &[Message::user("session2")]).unwrap();
    let r1 = store.get_messages("s1", RetrieveOptions::default()).unwrap();
    let r2 = store.get_messages("s2", RetrieveOptions::default()).unwrap();
    assert_eq!(r1.len(), 1);
    assert_eq!(r1[0].text(), Some("session1"));
    assert_eq!(r2.len(), 1);
    assert_eq!(r2[0].text(), Some("session2"));
}

#[test]
fn in_memory_default_impl() {
    let _store = InMemoryStore::default();
}

#[test]
fn store_within_window() {
    let mut mem = SlidingWindowMemory::new(5);
    mem.store_messages("s1", &numbered("msg", 3)).unwrap();
    let retrieved = mem.get_messages("s1", RetrieveOptions::default()).unwrap();
    assert_eq!(retrieved.len(), 3);
}

#[test]
fn trims_to_window_size() {
    let mut mem = SlidingWindowMemory::new(3);
    mem.store_messages("s1", &numbered("msg", 5)).unwrap();
    let retrieved = mem.get_messages("s1", RetrieveOptions::default()).unwrap();
    assert_eq!(retrieved.len(), 3);
    assert_eq!(retrieved[0].text(), Some("msg2"));
    assert_eq!(retrieved[1].text(), Some("msg3"));
    assert_eq!(retrieved[2].text(), Some("msg4"));
}

#[test]
fn incremental_store_trims() {
    let mut mem = SlidingWindowMemory::new(3);
    mem.store_messages("s1", &[Message::user("a"), Message::user("b")]).unwrap();
    mem.store_messages("s1", &[Message::user("c"), Message::user("d")]).unwrap();
    let retrieved = mem.get_messages("s1", RetrieveOptions::default()).unwrap();
    assert_eq!(retrieved.len(), 3);
    assert_eq!(retrieved[0].text(), Some("b"));
    assert_eq!(retrieved[1].text(), Some("c"));
    assert_eq!(retrieved[2].text(), Some("d"));
}

#[test]
fn sliding_window_get_messages_with_limit_and_offset() {
    let mut mem = SlidingWindowMemory::new(10);
    mem.store_messages("s1", &numbered("msg", 5)).unwrap();
    let opts = RetrieveOptions { limit: Some(2), offset: Some(1), after: None };
    let retrieved = mem.get_messages("s1", opts).unwrap();
    assert_eq!(retrieved.len(), 2);
    assert_eq!(retrieved[0].text(), Some("msg1"));
    assert_eq!(retrieved[1].text(), Some("msg2"));
}

#[test]
fn search_within_window() {
    let mut mem = SlidingWindowMemory::new(3);
    mem.store_messages("s1", &numbered("item ", 5)).unwrap();
    let results = mem.search("item", SearchOptions::default()).unwrap();
    assert_eq!(results.len(), 3);
}

#[test]
fn sliding_window_search_case_insensitive() {
    let mut mem = SlidingWindowMemory::new(10);
    mem.store_messages("s1", &[Message::user("Hello WORLD")]).unwrap();
    let results = mem.search("hello world", SearchOptions::default()).unwrap();
    assert_eq!(results.len(), 1);
}

#[test]
fn search_filters_by_session() {
    let mut mem = SlidingWindowMemory::new(10);
    mem.store_messages("s1", &[Message::user("target")]).unwrap();
    mem.store_messages("s2", &[Message::user("target")]).unwrap();
    let opts = SearchOptions { session_id: Some("s1".into()), ..Default::default() };
    let results = mem.search("target", opts).unwrap();
    assert_eq!(results.len(), 1);
}

#[test]
fn sliding_window_clear_removes_session() {
    let mut mem = SlidingWindowMemory::new(10);
    mem.store_messages("s1", &[Message::user("hello")]).unwrap();
    mem.clear("s1").unwrap();
    let retrieved = mem.get_messages("s1", RetrieveOptions::default()).unwrap();
    assert!(retrieved.is_empty());
}

#[test]
fn window_size_one() {
    let mut mem = SlidingWindowMemory::new(1);
    mem.store_messages("s1", &[Message::user("a"), Message::user("b")]).unwrap();
    let retrieved = mem.get_messages("s1", RetrieveOptions::default()).unwrap();
    assert_eq!(retrieved.len(), 1);
    assert_eq!(retrieved[0].text(), Some("b"));
}

#[test]
fn empty_session_returns_empty() {
    let mem = SlidingWindowMemory::new(5);
    let retrieved = mem.get_messages("nonexistent", RetrieveOptions::default()).unwrap();
    assert!(retrieved.is_empty());
}

#[test]
fn search_with_limit_zero_returns_nothing() {
    let mut store = InMemoryStore::new();
    store.store_messages("s1", &numbered("match ", 3)).unwrap();
    let opts = SearchOptions { limit: 0, ..Default::default() };
    assert!(store.search("match", opts).unwrap().is_empty());
    let mut mem = SlidingWindowMemory::new(5);
    mem.store_messages("s1", &numbered("match ", 3)).unwrap();
    let opts = SearchOptions { limit: 0, ..Default::default() };
    assert!(mem.search("match", opts).unwrap().is_empty());
}

#[test]
fn sliding_window_honours_after() {
    let mut m1 = Message::user("old");
    m1.timestamp = ts(100);
    let mut m2 = Message::user("new");
    m2.timestamp = ts(200);
    let mut mem = SlidingWindowMemory::new(5);
    mem.store_messages("s1", &[m1, m2]).unwrap();
    let opts = RetrieveOptions { limit: None, offset: None, after: Some(ts(150)) };
    let retrieved = mem.get_messages("s1", opts).unwrap();
    assert_eq!(retrieved.len(), 1);
    assert_eq!(retrieved[0].text(), Some("new"));
}

#[test]
fn after_filter_keeps_nanosecond_order() {
    let mut store = InMemoryStore::new();
    let mut a = Message::user("a");
    a.timestamp = Timestamp { secs: 5, nanos: 100 };
    let mut b = Message::user("b");
    b.timestamp = Timestamp { secs: 5, nanos: 101 };
    store.store_messages("s", &[a, b]).unwrap();
    let opts = RetrieveOptions { after: Some(Timestamp { secs: 5, nanos: 101 }), ..Default::default() };
    let got = store.get_messages("s", opts).unwrap();
    assert_eq!(got.len(), 1);
    assert_eq!(got[0].text(), Some("b"));
}
