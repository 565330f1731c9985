use domain::str_map::StrMap;

#[test]
fn insert_then_get_gives_value_back() {
    let mut m = StrMap::new();
    assert!(m.is_empty());
    m.insert("a".to_string(), 1);
    m.insert("b".to_string(), 2);
    m.insert("a".to_string(), 3);
    assert_eq!(m.len(), 2);
    assert_eq!(m.get("a"), Some(&3));
    assert_eq!(m.get("b"), Some(&2));
    assert_eq!(m.get("c"), None);
    assert_eq!(m.key(0), "a");
    assert_eq!(m.find("b"), Some(1));
    assert!(m.contains_key("b"));
    assert!(!m.contains_key("z"));
}
