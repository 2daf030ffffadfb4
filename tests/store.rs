use edge_router::{stage_put, KvError, MemoryStore};

#[test]
fn empty_key_fails_validation() {
    assert_eq!(stage_put("", "v").unwrap_err(), KvError::Validation);
}

#[test]
fn staged_put_keeps_key_and_value() {
    let p = stage_put("alpha", "hello").unwrap();
    assert_eq!(p.key(), "alpha");
    assert_eq!(p.value(), "hello");
}

#[test]
fn staged_put_without_execute_has_no_effect() {
    let store = MemoryStore::new();
    let _p = stage_put("alpha", "hello").unwrap();
    assert_eq!(store.get("alpha"), None);
    assert!(store.list().is_empty());
}

#[test]
fn put_then_get_round_trips() {
    let mut store = MemoryStore::new();
    let p = stage_put("alpha", "hello").unwrap();
    assert_eq!(store.execute(&p), Ok(()));
    assert_eq!(store.get("alpha"), Some("hello".to_string()));
}

#[test]
fn never_written_key_is_absent() {
    let store = MemoryStore::new();
    assert_eq!(store.get("missing"), None);
}

#[test]
fn executing_twice_equals_once() {
    let mut once = MemoryStore::new();
    let mut twice = MemoryStore::new();
    let p = stage_put("alpha", "hello").unwrap();
    once.execute(&p).unwrap();
    twice.execute(&p).unwrap();
    twice.execute(&p).unwrap();
    assert_eq!(once.list(), twice.list());
    assert_eq!(once.get("alpha"), twice.get("alpha"));
}

#[test]
fn overwrite_replaces_and_keeps_others() {
    let mut store = MemoryStore::new();
    store.execute(&stage_put("a", "1").unwrap()).unwrap();
    store.execute(&stage_put("b", "2").unwrap()).unwrap();
    store.execute(&stage_put("a", "3").unwrap()).unwrap();
    assert_eq!(store.get("a"), Some("3".to_string()));
    assert_eq!(store.get("b"), Some("2".to_string()));
    assert_eq!(store.list(), vec!["a".to_string(), "b".to_string()]);
}
