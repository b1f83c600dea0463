use lib::table::Table;

#[test]
fn insert_then_get() {
    let mut t: Table<String> = Table::new();
    assert!(!t.contains_key(&"a".to_string()));
    t.insert("a".to_string(), "1".to_string());
    t.insert("b".to_string(), "2".to_string());
    t.insert("a".to_string(), "3".to_string());
    assert_eq!(t.get(&"a".to_string()), Some(&"3".to_string()));
    assert_eq!(t.get(&"b".to_string()), Some(&"2".to_string()));
    assert_eq!(t.get(&"c".to_string()), None);
    assert!(t.contains_key(&"b".to_string()));
}

#[test]
fn copy_is_independent() {
    let mut t: Table<String> = Table::new();
    t.insert("k".to_string(), "v".to_string());
    let c = t.deep_clone();
    t.insert("k".to_string(), "w".to_string());
    assert_eq!(c.get(&"k".to_string()), Some(&"v".to_string()));
    assert_eq!(t.get(&"k".to_string()), Some(&"w".to_string()));
}
