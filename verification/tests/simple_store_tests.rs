use sdb::store::KeyValueStore;

#[test]
fn store_it_works() {
    let mut store = KeyValueStore::new();
    assert!(!store.contains("key"));
    let result = store.insert("key", "value");
    assert!(result.is_some());
    assert!(store.contains("key"));
    let result = store.insert("key", "whoops");
    assert!(result.is_none());
    store.set_or_insert("key", "whoops");
    let row = store.get_clone("key").expect("Unable to get row");
    assert_eq!(row.value(), "whoops");
}

#[test]
fn simple_store_get_on_missing_key() {
    let store = KeyValueStore::new();
    assert!(store.get_clone("missing").is_none());
}

#[test]
fn simple_store_set_or_insert_creates() {
    let mut store = KeyValueStore::new();
    store.set_or_insert("k", "v");
    let row = store.get_clone("k").expect("row should be there");
    assert_eq!(row.key(), "k");
    assert_eq!(row.value(), "v");
    assert_eq!(row.created(), row.updated());
}
