use nm_openvpn_sso::keyed::StrMap;

#[test]
fn get_after_insert_gives_the_last_value() {
    let mut m: StrMap<String> = StrMap::new();
    assert!(m.is_empty());
    m.insert("a".to_string(), "1".to_string());
    m.insert("b".to_string(), "2".to_string());
    m.insert("a".to_string(), "3".to_string());
    assert_eq!(m.get("a"), Some(&"3".to_string()));
    assert_eq!(m.get("b"), Some(&"2".to_string()));
    assert_eq!(m.get("c"), None);
    assert_eq!(m.len(), 2);
    assert!(!m.is_empty());
    assert!(m.contains_key("b"));
    assert!(!m.contains_key("B"));
}
