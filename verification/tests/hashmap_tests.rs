//! The observable keyed store and its removal capabilities.

use sycamore_state::RcHashMapSignal;

#[test]
pub fn hashmap_test() {
    let map = Vec::new();
    let mut map = RcHashMapSignal::new(map);
    map.insert("hello".to_string(), 3);
    map.insert("hello2".to_string(), 5);
    map.insert("hello4".to_string(), 7);
    map.insert("hello6".to_string(), 8);
    map.insert("hello7".to_string(), 59);
    assert_eq!(map.len(), 5);
    for v in map.items().iter() {
        v.remove(&mut map);
    }
    assert_eq!(map.len(), 0);
}

#[test]
fn values_are_readable() {
    let mut map = RcHashMapSignal::new(vec![("a".to_string(), 1u32)]);
    map.insert("b".to_string(), 2);
    assert_eq!(*map.get(&"a".to_string()).expect("present"), 1);
    assert_eq!(*map.get(&"b".to_string()).expect("present"), 2);
    assert!(map.get(&"c".to_string()).is_none());
}

#[test]
fn keyed_overwrite_discards_the_old_capability() {
    let mut map = RcHashMapSignal::new(Vec::new());
    let first = map.insert("k".to_string(), 1u32);
    let second = map.insert("k".to_string(), 2u32);
    assert_eq!(map.len(), 1);
    assert_eq!(*map.get(&"k".to_string()).expect("present"), 2);
    // the old entry's capability is a no-op against the live store
    first.remove(&mut map);
    assert_eq!(map.len(), 1);
    assert_eq!(*map.get(&"k".to_string()).expect("present"), 2);
    // the new entry's capability removes exactly that key
    second.remove(&mut map);
    assert_eq!(map.len(), 0);
    assert!(map.get(&"k".to_string()).is_none());
}

#[test]
fn stale_capability_stays_harmless() {
    let mut map = RcHashMapSignal::new(Vec::new());
    let item = map.insert("x".to_string(), 10u32);
    item.remove(&mut map);
    assert_eq!(map.len(), 0);
    // removing twice is a silent no-op
    item.remove(&mut map);
    assert_eq!(map.len(), 0);
    map.insert("x".to_string(), 11u32);
    // the stale capability does not touch the re-inserted key
    item.remove(&mut map);
    assert_eq!(map.len(), 1);
    assert_eq!(*map.get(&"x".to_string()).expect("present"), 11);
}

#[test]
fn initial_pairs_insert_in_order() {
    let map = RcHashMapSignal::new(vec![
        ("a".to_string(), 1u32),
        ("b".to_string(), 2),
        ("a".to_string(), 3),
    ]);
    assert_eq!(map.len(), 2);
    assert_eq!(*map.get(&"a".to_string()).expect("present"), 3);
    assert_eq!(*map.get(&"b".to_string()).expect("present"), 2);
}
