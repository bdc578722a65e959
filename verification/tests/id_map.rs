use sulis::id_map::IdMap;

#[test]
fn id_map_insert_then_get() {
    let mut m: IdMap<String> = IdMap::new();
    assert_eq!(m.len(), 0);
    m.insert("a".to_string(), "one".to_string());
    m.insert("b".to_string(), "two".to_string());
    assert_eq!(m.get(&"a".to_string()), Some(&"one".to_string()));
    assert_eq!(m.get(&"b".to_string()), Some(&"two".to_string()));
    assert_eq!(m.get(&"c".to_string()), None);
    assert_eq!(m.len(), 2);
}

#[test]
fn id_map_insert_replaces_in_place() {
    let mut m: IdMap<String> = IdMap::new();
    m.insert("a".to_string(), "one".to_string());
    m.insert("b".to_string(), "two".to_string());
    m.insert("a".to_string(), "three".to_string());
    assert_eq!(m.len(), 2);
    assert_eq!(m.id_at(0), "a");
    assert_eq!(m.value_at(0), "three");
    assert_eq!(m.position(&"b".to_string()), Some(1));
    let pairs = m.into_pairs();
    assert_eq!(
        pairs,
        vec![("a".to_string(), "three".to_string()), ("b".to_string(), "two".to_string())]
    );
}

#[test]
fn id_map_replacing_keeps_other_positions() {
    let mut m: IdMap<String> = IdMap::new();
    m.insert("a".to_string(), "1".to_string());
    m.insert("b".to_string(), "2".to_string());
    m.insert("c".to_string(), "3".to_string());
    m.insert("b".to_string(), "4".to_string());
    assert_eq!(m.id_at(0), "a");
    assert_eq!(m.id_at(1), "b");
    assert_eq!(m.value_at(1), "4");
    assert_eq!(m.id_at(2), "c");
}
