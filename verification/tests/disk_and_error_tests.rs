use sdb::{Error, KeyValueStore, Row, RowDiskRepr, StoreByteRepr, StoreDiskRepr};

#[test]
fn disk_repr_roundtrip() {
    let mut store = KeyValueStore::empty();
    assert!(store.insert_row(&Row::new("a", "1", 5, 6)).is_ok());
    assert!(store.insert_row(&Row::new("b", "2", 7, 8)).is_ok());
    let repr = store.to_disk().expect("snapshot should succeed");
    assert_eq!(repr.version, 1);
    assert_eq!(repr.data.len(), 2);
    let rebuilt = KeyValueStore::from_disk(&repr).expect("rebuild should succeed");
    assert_eq!(rebuilt.len().unwrap(), 2);
    let a = rebuilt.get_clone("a").unwrap();
    assert_eq!(a.value(), "1");
    assert_eq!(a.created(), 5);
    assert_eq!(a.updated(), 6);
    let b = rebuilt.get_clone("b").unwrap();
    assert_eq!(b.value(), "2");
    assert_eq!(b.created(), 7);
    assert_eq!(b.updated(), 8);
}

#[test]
fn into_disk_consumes_the_store() {
    let mut store = KeyValueStore::empty();
    assert!(store.insert_row(&Row::new("a", "1", 5, 6)).is_ok());
    let repr = store.into_disk().expect("snapshot should succeed");
    assert_eq!(repr.version, 1);
    assert_eq!(repr.data.len(), 1);
    assert_eq!(repr.data[0].key, "a");
    assert_eq!(repr.data[0].value, "1");
}

#[test]
fn from_disk_rejects_unknown_version() {
    let repr = StoreDiskRepr { version: 2, data: Vec::new() };
    let result = KeyValueStore::from_disk(&repr);
    assert!(matches!(result, Err(Error::DeserializationFailure(_))));
}

#[test]
fn from_disk_rejects_duplicate_keys() {
    let one = RowDiskRepr { key: "k".to_string(), value: "1".to_string(), created: 1, updated: 1 };
    let two = RowDiskRepr { key: "k".to_string(), value: "2".to_string(), created: 2, updated: 2 };
    let repr = StoreDiskRepr::from_vec(vec![one, two]);
    let result = KeyValueStore::from_disk(&repr);
    assert!(matches!(result, Err(Error::DuplicateKey(_))));
}

#[test]
fn disk_repr_constructors() {
    assert_eq!(StoreDiskRepr::current_version(), 1);
    assert_eq!(StoreByteRepr::current_version(), 1);
    let rows =
        vec![RowDiskRepr { key: "k".to_string(), value: "v".to_string(), created: 1, updated: 2 }];
    let repr = StoreDiskRepr::new(&rows);
    assert_eq!(repr.version, 1);
    assert_eq!(repr.data.len(), 1);
    assert_eq!(repr.data[0], rows[0]);
    let envelope = StoreByteRepr::new(&[1, 2, 3]);
    assert_eq!(envelope.version, 1);
    assert_eq!(envelope.data, vec![1, 2, 3]);
    let repr_copy = repr.clone();
    assert_eq!(repr_copy.version, repr.version);
    assert_eq!(repr_copy.data, repr.data);
    let envelope_copy = envelope.clone();
    assert_eq!(envelope_copy.version, envelope.version);
    assert_eq!(envelope_copy.data, envelope.data);
}

#[test]
fn row_and_repr_convert_both_ways() {
    let row = Row::new("k", "v", 1, 2);
    let repr = RowDiskRepr::from(&row);
    assert_eq!(repr.key, "k");
    assert_eq!(repr.value, "v");
    assert_eq!(repr.created, 1);
    assert_eq!(repr.updated, 2);
    let back = Row::from(repr);
    assert_eq!(back, row);
    let repr_owned = RowDiskRepr::from(row);
    let back_ref = Row::from(&repr_owned);
    assert_eq!(back_ref.key(), "k");
}

#[test]
fn error_messages_are_exact() {
    assert_eq!(Error::key_not_found("k").message(), "key 'k' not found");
    assert_eq!(Error::duplicate_key("k").message(), "key 'k' already exists");
    assert_eq!(
        Error::mutex_poisoned("poisoned lock: another task failed inside").message(),
        "mutex poisoned: 'poisoned lock: another task failed inside'"
    );
    assert_eq!(
        Error::SerializationFailure("oops".to_string()).message(),
        "error occurred during serialization: 'oops'"
    );
    assert_eq!(
        Error::DeserializationFailure("oops".to_string()).message(),
        "error occurred during deserialization: 'oops'"
    );
    let mismatch = Error::KeyValueMismatch("k".to_string(), Row::new("other", "v", 0, 0));
    assert_eq!(
        mismatch.message(),
        "key 'k' does not match key of row 'other:v'"
    );
}

#[test]
fn config_defaults() {
    let data = sdb::DataConfig::default();
    assert!(!data.save_to_disk);
    assert!(data.save_path.is_none());
    let wal = sdb::WalConfig::default();
    assert!(!wal.use_wal);
    let settings = sdb::Settings { debug: true, data, wal };
    assert!(settings.debug);
}
