use pocketdevos::table::KeyedTable;

#[test]
fn insert_get_remove() {
    let mut t: KeyedTable<u32> = KeyedTable::new();
    assert_eq!(t.len(), 0);
    assert_eq!(t.insert("a".to_string(), 1), None);
    assert_eq!(t.insert("b".to_string(), 2), None);
    assert_eq!(t.insert("a".to_string(), 3), Some(1));
    assert_eq!(t.len(), 2);
    assert_eq!(t.get("a"), Some(&3));
    assert_eq!(t.find("b"), Some(1));
    assert_eq!(t.entry_at(0), ("a", &3));
    assert_eq!(t.remove("a"), Some(3));
    assert_eq!(t.remove("a"), None);
    assert_eq!(t.get("a"), None);
    assert_eq!(t.find("b"), Some(0));
    assert_eq!(t.len(), 1);
}
