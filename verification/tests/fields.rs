use tracing_web_console::fields::StringMap;

#[test]
fn new_map_is_empty() {
    let map = StringMap::new();
    assert_eq!(map.len(), 0);
    assert!(map.is_empty());
    assert!(map.get("k").is_none());
    assert!(!map.contains_key("k"));
}

#[test]
fn insert_adds_and_replaces() {
    let mut map = StringMap::new();
    assert_eq!(map.insert("a".to_string(), "1".to_string()), None);
    assert_eq!(map.insert("b".to_string(), "2".to_string()), None);
    assert_eq!(map.insert("a".to_string(), "3".to_string()), Some("1".to_string()));
    assert_eq!(map.len(), 2);
    assert_eq!(map.get("a").map(|s| s.as_str()), Some("3"));
    assert_eq!(map.get("b").map(|s| s.as_str()), Some("2"));
    // The replaced entry keeps its place.
    assert_eq!(map.key_at(0), "a");
    assert_eq!(map.value_at(0), "3");
    assert_eq!(map.key_at(1), "b");
    assert_eq!(map.value_at(1), "2");
}

#[test]
fn remove_takes_the_entry_out() {
    let mut map = StringMap::new();
    map.insert("a".to_string(), "1".to_string());
    map.insert("b".to_string(), "2".to_string());
    map.insert("c".to_string(), "3".to_string());
    assert_eq!(map.remove("b"), Some("2".to_string()));
    assert_eq!(map.remove("b"), None);
    assert_eq!(map.len(), 2);
    assert!(!map.contains_key("b"));
    assert_eq!(map.key_at(0), "a");
    assert_eq!(map.key_at(1), "c");
}

#[test]
fn clone_copies_every_entry() {
    let mut map = StringMap::new();
    map.insert("a".to_string(), "1".to_string());
    map.insert("b".to_string(), "2".to_string());
    let mut copy = map.clone();
    assert_eq!(copy.len(), 2);
    assert_eq!(copy.get("a").map(|s| s.as_str()), Some("1"));
    assert_eq!(copy.get("b").map(|s| s.as_str()), Some("2"));
    copy.insert("a".to_string(), "9".to_string());
    assert_eq!(map.get("a").map(|s| s.as_str()), Some("1"));
}

#[test]
fn keys_are_compared_exactly() {
    let mut map = StringMap::new();
    map.insert("Key".to_string(), "v".to_string());
    assert!(map.get("key").is_none());
    assert!(map.get("Key ").is_none());
    assert!(map.get("").is_none());
    map.insert(String::new(), "empty".to_string());
    assert_eq!(map.get("").map(|s| s.as_str()), Some("empty"));
}
