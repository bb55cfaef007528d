use sdb::{create_now, Error, KeyValueStore, Row};

fn store_with(values: &[(&str, &str)]) -> KeyValueStore {
    let values = values.to_vec();
    let mut store = KeyValueStore::empty();
    for &(key, value) in &values {
        assert!(
            store.insert(key, value).is_ok(),
            "store_with - failed to insert ({}, {})",
            key,
            value
        );
    }
    assert_eq!(
        store.len().expect("store_with - failed to get length"),
        values.len()
    );
    store
}

fn fill_single_thread(values: usize) -> KeyValueStore {
    let mut store = KeyValueStore::empty();
    for i in 0..values {
        let key = format!("key{}", i);
        let value = format!("value{}", i);
        assert!(
            store.insert(key.as_str(), value.as_str()).is_ok(),
            "fill_single_thread - unable to insert ({},{})",
            key,
            value
        );
    }
    assert_eq!(
        store
            .len()
            .expect("fill_single_thread - unable to get length"),
        values,
        "fill_single_thread - did not add the expected number of values",
    );
    store
}

#[test]
fn hashmap_store_collect() {
    let data = vec![
        ("key1".to_string(), Row::create("key1", "value1")),
        ("key2".to_string(), Row::create("key2", "value2")),
        ("key3".to_string(), Row::create("key3", "value3")),
    ];

    let store = KeyValueStore::from_pairs(data);
    assert!(store.is_ok());
}

#[test]
fn hashmap_store_it_works() {
    let mut store = KeyValueStore::empty();
    let result = store.contains("key");
    assert!(result.is_ok());
    assert!(!result.unwrap());
    let result = store.insert("key", "value");
    assert!(result.is_ok());
    let result = store.contains("key");
    assert!(result.is_ok());
    assert!(result.unwrap());
    let result = store.insert("key", "whoops");
    assert!(result.is_err());
    let result = store.set_or_insert("key", "whoops");
    assert!(result.is_ok());
    let result = store.get_clone("key");
    assert!(result.is_ok());
    let row = result.unwrap();
    assert_eq!(row.value(), "whoops");
    let result = store.len();
    assert!(result.is_ok());
    assert_eq!(result.unwrap(), 1);
    let result = store.delete("key");
    assert!(result.is_ok());
    let result = store.delete("key");
    assert!(result.is_err());
}

#[test]
fn hashmap_store_byte_roundtrip() {
    let mut original = KeyValueStore::empty();
    assert!(original.insert("key1", "value1").is_ok());
    assert!(original.insert("key2", "value2").is_ok());
    assert!(original.insert("key3", "value3").is_ok());
    assert_eq!(
        original
            .len()
            .expect("byte_roundtrip (original) - unable to get length"),
        3
    );
    assert_eq!(
        original
            .get_clone("key1")
            .expect("byte_roundtrip (original) - unable to get key1")
            .value(),
        "value1"
    );
    assert_eq!(
        original
            .get_clone("key2")
            .expect("byte_roundtrip (original) - unable to get key2")
            .value(),
        "value2"
    );
    assert_eq!(
        original
            .get_clone("key3")
            .expect("byte_roundtrip (original) - unable to get key3")
            .value(),
        "value3"
    );
    let result = original.to_bytes();
    assert!(result.is_ok());
    let bytes = result.unwrap();
    assert!(original.insert("key4", "value4").is_ok());
    assert_eq!(
        original
            .len()
            .expect("byte_roundtrip (original) - unable to get length"),
        4
    );
    let result = KeyValueStore::from_bytes(&bytes);
    assert!(result.is_ok());
    let clone = result.unwrap();
    assert_eq!(
        clone
            .len()
            .expect("byte_roundtrip (clone) - unable to get length"),
        3
    );
    assert_eq!(
        clone
            .get_clone("key1")
            .expect("byte_roundtrip (clone) - unable to get key1")
            .value(),
        "value1"
    );
    assert_eq!(
        clone
            .get_clone("key2")
            .expect("byte_roundtrip (clone) - unable to get key2")
            .value(),
        "value2"
    );
    assert_eq!(
        clone
            .get_clone("key3")
            .expect("byte_roundtrip (clone) - unable to get key3")
            .value(),
        "value3"
    );
    assert!(clone.get_clone("key4").is_err());
}

#[test]
fn hashmap_store_check_fill_single() {
    let mut vals: usize = 100;
    let store = fill_single_thread(vals);
    assert_eq!(
        store
            .len()
            .expect("check_fill_single - unable to get length"),
        vals,
        "check_fill_single - did not add the expected number of values",
    );

    vals = 200;
    let store = fill_single_thread(vals);
    assert_eq!(
        store
            .len()
            .expect("check_fill_single - unable to get length"),
        vals,
        "check_fill_single - did not add the expected number of values",
    );
}

#[test]
fn fresh_insert_then_get() {
    let before = create_now();
    let mut store = KeyValueStore::empty();
    assert!(store.insert("k", "v").is_ok());
    let after = create_now();
    let row = store.get_clone("k").expect("row should be there");
    assert_eq!(row.key(), "k");
    assert_eq!(row.value(), "v");
    assert_eq!(row.created(), row.updated());
    assert!(row.created() >= before && row.created() <= after);
}

#[test]
fn duplicate_insert_leaves_row_unchanged() {
    let mut store = store_with(&[("k", "v")]);
    let original = store.get_clone("k").expect("row should be there");
    let result = store.insert("k", "other");
    assert!(matches!(result, Err(Error::DuplicateKey(_))));
    let row = store.get_clone("k").expect("row should still be there");
    assert_eq!(row, original);
    assert_eq!(store.len().unwrap(), 1);
}

#[test]
fn set_same_value_keeps_updated() {
    let mut store = KeyValueStore::empty();
    assert!(store.set_or_insert("k", "v").is_ok());
    let first = store.get_clone("k").expect("row should be there");
    assert!(store.set_or_insert("k", "v").is_ok());
    let second = store.get_clone("k").expect("row should still be there");
    assert_eq!(second.updated(), first.updated());
    assert_eq!(second, first);
}

#[test]
fn set_new_value_moves_updated() {
    let mut store = KeyValueStore::empty();
    assert!(store.set_or_insert("k", "v1").is_ok());
    let first = store.get_clone("k").expect("row should be there");
    assert!(store.set_or_insert("k", "v2").is_ok());
    let second = store.get_clone("k").expect("row should still be there");
    assert_eq!(second.value(), "v2");
    assert_eq!(second.created(), first.created());
    assert!(second.updated() >= first.updated());
}

#[test]
fn delete_present_and_absent() {
    let mut store = store_with(&[("a", "1"), ("b", "2")]);
    let removed = store.delete("a").expect("delete should succeed");
    assert_eq!(removed.key(), "a");
    assert_eq!(removed.value(), "1");
    assert!(!store.contains("a").unwrap());
    assert_eq!(store.len().unwrap(), 1);
    let result = store.delete("a");
    assert!(matches!(result, Err(Error::KeyNotFound(_))));
    assert_eq!(store.len().unwrap(), 1);
}

#[test]
fn insert_row_and_set_or_insert_row() {
    let mut store = KeyValueStore::empty();
    let row = Row::new("k", "v", 10, 20);
    assert!(store.insert_row(&row).is_ok());
    assert!(matches!(
        store.insert_row(&row),
        Err(Error::DuplicateKey(_))
    ));
    let replacement = Row::new("k", "w", 30, 40);
    assert!(store.set_or_insert_row(&replacement).is_ok());
    let fetched = store.get_clone("k").unwrap();
    assert_eq!(fetched.value(), "w");
    assert_eq!(fetched.created(), 30);
    assert_eq!(fetched.updated(), 40);
}

#[test]
fn from_pairs_rejects_mismatched_key() {
    let data = vec![("other".to_string(), Row::create("key", "value"))];
    let result = KeyValueStore::from_pairs(data);
    assert!(matches!(result, Err(Error::KeyValueMismatch(_, _))));
}

#[test]
fn from_pairs_later_pair_wins() {
    let data = vec![
        ("k".to_string(), Row::new("k", "first", 1, 1)),
        ("k".to_string(), Row::new("k", "second", 2, 2)),
    ];
    let store = KeyValueStore::from_pairs(data).expect("pairs are consistent");
    assert_eq!(store.len().unwrap(), 1);
    assert_eq!(store.get_clone("k").unwrap().value(), "second");
}
