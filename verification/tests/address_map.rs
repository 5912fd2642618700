use chain_core::address_map::AddressMap;

fn key(text: &str) -> String {
    text.to_string()
}

#[test]
fn new_map_is_empty() {
    let map: AddressMap<u64> = AddressMap::new();
    assert_eq!(map.len(), 0);
    assert_eq!(map.get(&key("a")), None);
    assert_eq!(map.find(&key("a")), None);
    assert!(!map.contains_key(&key("a")));
}

#[test]
fn insert_appends_new_keys_in_order() {
    let mut map = AddressMap::new();
    map.insert(key("b"), 2u64);
    map.insert(key("a"), 1u64);
    map.insert(key(""), 0u64);
    assert_eq!(map.len(), 3);
    assert_eq!(map.key_at(0), "b");
    assert_eq!(map.key_at(1), "a");
    assert_eq!(map.key_at(2), "");
    assert_eq!(*map.value_at(1), 1);
    assert_eq!(map.find(&key("a")), Some(1));
    assert_eq!(map.get(&key("")), Some(&0));
}

#[test]
fn insert_replaces_an_existing_key_in_place() {
    let mut map = AddressMap::new();
    map.insert(key("a"), 1u64);
    map.insert(key("b"), 2u64);
    map.insert(key("a"), 10u64);
    assert_eq!(map.len(), 2);
    assert_eq!(map.key_at(0), "a");
    assert_eq!(map.get(&key("a")), Some(&10));
    assert_eq!(map.get(&key("b")), Some(&2));
}

#[test]
fn remove_takes_one_key_and_keeps_the_order_of_the_rest() {
    let mut map = AddressMap::new();
    map.insert(key("a"), 1u64);
    map.insert(key("b"), 2u64);
    map.insert(key("c"), 3u64);
    map.remove(&key("b"));
    assert_eq!(map.len(), 2);
    assert_eq!(map.key_at(0), "a");
    assert_eq!(map.key_at(1), "c");
    assert_eq!(map.get(&key("b")), None);
    assert_eq!(map.get(&key("c")), Some(&3));
    map.remove(&key("b"));
    assert_eq!(map.len(), 2);
}

#[test]
fn keys_differ_by_case_and_by_trailing_space() {
    let mut map = AddressMap::new();
    map.insert(key("a"), 1u64);
    map.insert(key("A"), 2u64);
    map.insert(key("a "), 3u64);
    assert_eq!(map.len(), 3);
    assert_eq!(map.get(&key("A")), Some(&2));
}
