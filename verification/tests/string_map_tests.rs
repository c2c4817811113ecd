use kube_core::StringMap;

#[test]
fn new_map_is_empty() {
    let m = StringMap::new();
    assert!(m.is_empty());
    assert_eq!(m.len(), 0);
    assert_eq!(m.get("anything"), None);
    assert!(!m.contains_key("anything"));
}

#[test]
fn insert_then_get_finds_the_value() {
    let mut m = StringMap::new();
    m.insert("app".to_string(), "web".to_string());
    assert_eq!(m.get("app"), Some(&"web".to_string()));
    assert_eq!(m.get("tier"), None);
    assert_eq!(m.len(), 1);
    assert!(!m.is_empty());
}

#[test]
fn insert_replaces_existing_value() {
    let mut m = StringMap::new();
    m.insert("app".to_string(), "web".to_string());
    m.insert("app".to_string(), "db".to_string());
    assert_eq!(m.len(), 1);
    assert_eq!(m.get("app"), Some(&"db".to_string()));
}

#[test]
fn distinct_keys_are_kept_apart() {
    let mut m = StringMap::new();
    m.insert("app".to_string(), "web".to_string());
    m.insert("tier".to_string(), "front".to_string());
    assert_eq!(m.len(), 2);
    assert_eq!(m.get("app"), Some(&"web".to_string()));
    assert_eq!(m.get("tier"), Some(&"front".to_string()));
    assert!(m.contains_key("app"));
    assert!(m.contains_key("tier"));
}

#[test]
fn remove_returns_the_stored_value() {
    let mut m = StringMap::new();
    m.insert("app".to_string(), "web".to_string());
    m.insert("tier".to_string(), "front".to_string());
    assert_eq!(m.remove("app"), Some("web".to_string()));
    assert_eq!(m.remove("app"), None);
    assert_eq!(m.len(), 1);
    assert_eq!(m.get("tier"), Some(&"front".to_string()));
}

#[test]
fn to_vec_lists_every_entry() {
    let mut m = StringMap::new();
    m.insert("a".to_string(), "1".to_string());
    m.insert("b".to_string(), "2".to_string());
    let mut entries = m.to_vec();
    entries.sort();
    assert_eq!(
        entries,
        vec![
            ("a".to_string(), "1".to_string()),
            ("b".to_string(), "2".to_string())
        ]
    );
}
