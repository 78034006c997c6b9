use gateway::table::Table;

#[test]
fn table_insert_then_get() {
    let mut t: Table<u32> = Table::new();
    assert_eq!(t.len(), 0);
    assert_eq!(t.insert("a".to_string(), 1), None);
    assert_eq!(t.insert("b".to_string(), 2), None);
    assert_eq!(t.get("a"), Some(&1));
    assert_eq!(t.get("b"), Some(&2));
    assert_eq!(t.get("c"), None);
    assert!(t.contains_key("a"));
    assert!(!t.contains_key("c"));
    assert_eq!(t.len(), 2);
}

#[test]
fn table_insert_replaces() {
    let mut t: Table<&str> = Table::new();
    t.insert("k".to_string(), "first");
    assert_eq!(t.insert("k".to_string(), "second"), Some("first"));
    assert_eq!(t.get("k"), Some(&"second"));
    assert_eq!(t.len(), 1);
}

#[test]
fn table_keys_once_each() {
    let mut t: Table<u32> = Table::new();
    assert!(t.keys().is_empty());
    t.insert("x".to_string(), 1);
    t.insert("y".to_string(), 2);
    t.insert("x".to_string(), 3);
    assert_eq!(t.keys(), vec!["x".to_string(), "y".to_string()]);
}
