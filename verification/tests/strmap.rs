use lineshell::StrMap;

#[test]
fn new_map_is_empty() {
    let m: StrMap<u32> = StrMap::new();
    assert_eq!(m.len(), 0);
    assert!(!m.contains_key("a"));
    assert!(m.get("a").is_none());
}

#[test]
fn insert_binds_and_overwrites() {
    let mut m: StrMap<u32> = StrMap::new();
    m.insert("a".to_string(), 1);
    m.insert("b".to_string(), 2);
    assert_eq!(m.len(), 2);
    assert_eq!(m.get("a"), Some(&1));
    assert_eq!(m.get("b"), Some(&2));
    m.insert("a".to_string(), 3);
    assert_eq!(m.len(), 2);
    assert_eq!(m.get("a"), Some(&3));
    assert_eq!(m.get("b"), Some(&2));
    assert!(m.contains_key("a"));
    assert!(!m.contains_key("c"));
}

#[test]
fn empty_string_is_a_key() {
    let mut m: StrMap<&str> = StrMap::new();
    m.insert(String::new(), "nothing");
    assert_eq!(m.get(""), Some(&"nothing"));
    assert_eq!(m.len(), 1);
}
