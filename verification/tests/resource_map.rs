use sulis::resource_map::ResourceMap;

#[test]
fn resource_map_first_insert_wins() {
    let mut m: ResourceMap<u32> = ResourceMap::new();
    assert_eq!(m.len(), 0);
    assert!(m.insert_new("a".to_string(), 1));
    assert!(m.insert_new("b".to_string(), 2));
    assert!(!m.insert_new("a".to_string(), 3));
    assert_eq!(m.len(), 2);
    assert_eq!(m.get(&"a".to_string()), Some(&1));
    assert_eq!(m.get(&"b".to_string()), Some(&2));
    assert_eq!(m.get(&"c".to_string()), None);
    assert!(m.contains_key(&"a".to_string()));
    assert!(!m.contains_key(&"c".to_string()));
}
