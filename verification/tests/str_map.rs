use rpgx::str_map::StrMap;

#[test]
fn insert_then_get_gives_back_the_value() {
    let mut m: StrMap<u32> = StrMap::new();
    assert_eq!(m.len(), 0);
    assert_eq!(m.get(&"a".to_string()), None);
    m.insert("a".to_string(), 1);
    m.insert("b".to_string(), 2);
    assert_eq!(m.get(&"a".to_string()), Some(&1));
    assert_eq!(m.get(&"b".to_string()), Some(&2));
    assert_eq!(m.get(&"c".to_string()), None);
    assert_eq!(m.len(), 2);
}

#[test]
fn insert_existing_key_replaces_in_place() {
    let mut m: StrMap<String> = StrMap::new();
    m.insert("x".to_string(), "1".to_string());
    m.insert("y".to_string(), "2".to_string());
    m.insert("x".to_string(), "3".to_string());
    assert_eq!(m.len(), 2);
    let (k0, v0) = m.get_index(0);
    let (k1, v1) = m.get_index(1);
    assert_eq!((k0.as_str(), v0.as_str()), ("x", "3"));
    assert_eq!((k1.as_str(), v1.as_str()), ("y", "2"));
}

#[test]
fn empty_key_is_an_ordinary_key() {
    let mut m: StrMap<u8> = StrMap::new();
    m.insert(String::new(), 7);
    m.insert(String::new(), 8);
    assert_eq!(m.len(), 1);
    assert_eq!(m.get(&String::new()), Some(&8));
}
