use wirefish::keyed::KeyedStore;

#[test]
fn new_store_is_empty() {
    let store: KeyedStore<String, u32> = KeyedStore::new();
    assert_eq!(store.len(), 0);
    assert!(store.is_empty());
    assert!(store.get(&"eth0".to_string()).is_none());
    assert!(!store.contains_key(&"eth0".to_string()));
}

#[test]
fn insert_keeps_first_arrival_order() {
    let mut store: KeyedStore<String, u32> = KeyedStore::new();
    assert_eq!(store.insert("b".to_string(), 1), None);
    assert_eq!(store.insert("a".to_string(), 2), None);
    assert_eq!(store.insert("c".to_string(), 3), None);
    assert_eq!(store.len(), 3);
    assert_eq!(store.key_at(0), "b");
    assert_eq!(store.key_at(1), "a");
    assert_eq!(store.key_at(2), "c");
    assert_eq!(*store.value_at(1), 2);
    assert_eq!(store.position(&"c".to_string()), Some(2));
    assert_eq!(store.position(&"d".to_string()), None);
}

#[test]
fn insert_replaces_the_value_of_a_known_key() {
    let mut store: KeyedStore<u16, u32> = KeyedStore::new();
    assert_eq!(store.insert(80, 1), None);
    assert_eq!(store.insert(443, 2), None);
    assert_eq!(store.insert(80, 7), Some(1));
    assert_eq!(store.len(), 2);
    assert_eq!(store.get(&80), Some(&7));
    assert_eq!(store.get(&443), Some(&2));
    assert_eq!(*store.key_at(0), 80);
}

#[test]
fn remove_takes_the_key_out_and_closes_the_gap() {
    let mut store: KeyedStore<u16, u32> = KeyedStore::new();
    store.insert(1, 10);
    store.insert(2, 20);
    store.insert(3, 30);
    assert_eq!(store.remove(&2), Some(20));
    assert_eq!(store.remove(&2), None);
    assert_eq!(store.len(), 2);
    assert_eq!(*store.key_at(0), 1);
    assert_eq!(*store.key_at(1), 3);
    assert_eq!(store.get(&3), Some(&30));
    assert!(!store.contains_key(&2));
}

#[test]
fn replace_at_hands_back_the_former_value() {
    let mut store: KeyedStore<u16, u32> = KeyedStore::new();
    store.insert(5, 50);
    store.insert(6, 60);
    assert_eq!(store.replace_at(1, 61), 60);
    assert_eq!(store.get(&6), Some(&61));
    assert_eq!(store.remove_at(0), (5, 50));
    assert_eq!(store.len(), 1);
}

#[test]
fn take_all_leaves_the_store_empty() {
    let mut store: KeyedStore<String, u32> = KeyedStore::new();
    store.insert("x".to_string(), 1);
    store.insert("y".to_string(), 2);
    let taken = store.take_all();
    assert_eq!(taken.len(), 2);
    assert_eq!(taken.get(&"y".to_string()), Some(&2));
    assert!(store.is_empty());
    assert!(store.take_all().is_empty());
}
