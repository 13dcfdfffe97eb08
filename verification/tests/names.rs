use wasm_rs::exec::NameMap;

#[test]
fn insert_then_get() {
    let mut m: NameMap<u32> = NameMap::new();
    assert_eq!(m.get("a"), None);
    m.insert("a".to_string(), 1);
    m.insert("b".to_string(), 2);
    assert_eq!(m.get("a"), Some(&1));
    assert_eq!(m.get("b"), Some(&2));
    assert_eq!(m.get("c"), None);
}

#[test]
fn insert_replaces_an_earlier_binding() {
    let mut m: NameMap<u32> = NameMap::new();
    m.insert("x".to_string(), 1);
    m.insert("y".to_string(), 5);
    m.insert("x".to_string(), 3);
    assert_eq!(m.get("x"), Some(&3));
    assert_eq!(m.get("y"), Some(&5));
}

#[test]
fn empty_name_is_a_name() {
    let mut m: NameMap<u32> = NameMap::new();
    m.insert(String::new(), 9);
    assert_eq!(m.get(""), Some(&9));
}
