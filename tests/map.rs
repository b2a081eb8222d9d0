use stride_os::map::SimpleMap;

#[test]
fn insert_then_get_returns_value() {
    let mut m: SimpleMap<u64, u64> = SimpleMap::new();
    m.insert(3, 30);
    m.insert(7, 70);
    assert_eq!(m.get(&3), Some(&30));
    assert_eq!(m.get(&7), Some(&70));
    assert_eq!(m.get(&5), None);
}

#[test]
fn insert_existing_key_overwrites() {
    let mut m: SimpleMap<u64, &str> = SimpleMap::new();
    m.insert(1, "a");
    m.insert(2, "b");
    m.insert(1, "c");
    assert_eq!(m.get(&1), Some(&"c"));
    assert_eq!(m.get(&2), Some(&"b"));
    assert_eq!(m.remove(&1), Some("c"));
    assert_eq!(m.get(&1), None);
}

#[test]
fn remove_then_get_is_absent() {
    let mut m: SimpleMap<u32, i32> = SimpleMap::new();
    m.insert(10, -1);
    m.insert(20, -2);
    m.insert(30, -3);
    assert_eq!(m.remove(&20), Some(-2));
    assert_eq!(m.get(&20), None);
    assert_eq!(m.get(&10), Some(&-1));
    assert_eq!(m.get(&30), Some(&-3));
}

#[test]
fn remove_absent_key_is_noop() {
    let mut m: SimpleMap<u8, u8> = SimpleMap::new();
    assert_eq!(m.remove(&1), None);
    m.insert(1, 2);
    assert_eq!(m.remove(&9), None);
    assert_eq!(m.get(&1), Some(&2));
}

#[test]
fn get_on_empty_map() {
    let m: SimpleMap<u64, u64> = SimpleMap::new();
    assert_eq!(m.get(&0), None);
}
