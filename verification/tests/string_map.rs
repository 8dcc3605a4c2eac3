use position_manager::string_map::StringMap;

#[test]
fn string_map_binds_and_rebinds() {
    let mut map: StringMap<u64> = StringMap::new();
    assert_eq!(map.len(), 0);
    assert!(map.get("a").is_none());
    assert_eq!(map.position("a"), None);
    map.insert("a".to_string(), 1);
    map.insert("b".to_string(), 2);
    map.insert("a".to_string(), 3);
    assert_eq!(map.len(), 2);
    assert_eq!(map.get("a"), Some(&3));
    assert_eq!(map.get("b"), Some(&2));
    assert!(map.get("").is_none());
    assert!(map.get("ab").is_none());
    assert_eq!(map.position("a"), Some(0));
    assert_eq!(map.position("b"), Some(1));
    assert_eq!(*map.value_at(1), 2);
    *map.value_at_mut(1) = 5;
    assert_eq!(map.get("b"), Some(&5));
}

#[test]
fn string_keys_are_compared_by_their_characters() {
    let mut map: StringMap<u64> = StringMap::new();
    map.insert("EURUSD".to_string(), 1);
    let built: String = ["EUR", "USD"].concat();
    assert_eq!(map.get(&built), Some(&1));
    assert!(map.get("EURUSd").is_none());
    assert!(map.get("EURUS").is_none());
}
