use sdb::{Error, KeyValueStore, Row};

#[test]
fn negative_timestamps_survive_the_byte_image() {
    let mut store = KeyValueStore::empty();
    assert!(store.insert_row(&Row::new("k", "v", -5, -3)).is_ok());
    assert!(store.insert_row(&Row::new("edge", "", i64::MIN, i64::MAX)).is_ok());
    let bytes = store.to_bytes().expect("encoding never fails");
    let rebuilt = KeyValueStore::from_bytes(&bytes).expect("image should read back");
    let k = rebuilt.get_clone("k").unwrap();
    assert_eq!(k.created(), -5);
    assert_eq!(k.updated(), -3);
    let edge = rebuilt.get_clone("edge").unwrap();
    assert_eq!(edge.value(), "");
    assert_eq!(edge.created(), i64::MIN);
    assert_eq!(edge.updated(), i64::MAX);
}

#[test]
fn unicode_keys_and_values_survive_the_byte_image() {
    let mut store = KeyValueStore::empty();
    assert!(store.insert_row(&Row::new("clef \u{00e9}\u{20ac}", "\u{1f600} value", 1, 2)).is_ok());
    let bytes = store.to_bytes().expect("encoding never fails");
    let rebuilt = KeyValueStore::from_bytes(&bytes).expect("image should read back");
    let row = rebuilt.get_clone("clef \u{00e9}\u{20ac}").unwrap();
    assert_eq!(row.value(), "\u{1f600} value");
}

#[test]
fn empty_store_encodes_to_no_bytes() {
    let store = KeyValueStore::empty();
    let bytes = store.to_bytes().expect("encoding never fails");
    assert_eq!(bytes, Vec::<u8>::new());
    let rebuilt = KeyValueStore::from_bytes(&bytes).expect("image should read back");
    assert_eq!(rebuilt.len().unwrap(), 0);
}

#[test]
fn exact_byte_image_of_one_record() {
    let mut store = KeyValueStore::empty();
    assert!(store.insert_row(&Row::new("ab", "c", 1, -1)).is_ok());
    let bytes = store.to_bytes().expect("encoding never fails");
    let mut expected: Vec<u8> = Vec::new();
    expected.extend_from_slice(&[2, 0, 0, 0, 0, 0, 0, 0]);
    expected.extend_from_slice(b"ab");
    expected.extend_from_slice(&[1, 0, 0, 0, 0, 0, 0, 0]);
    expected.extend_from_slice(b"c");
    expected.extend_from_slice(&[0, 1, 0, 0, 0, 0, 0, 0, 0]);
    expected.extend_from_slice(&[1, 0, 0, 0, 0, 0, 0, 0, 0]);
    assert_eq!(bytes, expected);
}

#[test]
fn truncated_bytes_are_rejected() {
    let result = KeyValueStore::from_bytes(&[1, 2, 3]);
    assert!(matches!(result, Err(Error::DeserializationFailure(_))));
}

#[test]
fn key_bytes_must_be_utf8() {
    let mut store = KeyValueStore::empty();
    assert!(store.insert("ab", "c").is_ok());
    let mut bytes = store.to_bytes().expect("encoding never fails");
    bytes[8] = 0xff;
    let result = KeyValueStore::from_bytes(&bytes);
    assert!(matches!(result, Err(Error::DeserializationFailure(_))));
}

#[test]
fn duplicate_keys_in_the_image_are_rejected() {
    let mut store = KeyValueStore::empty();
    assert!(store.insert_row(&Row::new("k", "v", 1, 1)).is_ok());
    let once = store.to_bytes().expect("encoding never fails");
    let mut twice = once.clone();
    twice.extend_from_slice(&once);
    let result = KeyValueStore::from_bytes(&twice);
    assert!(matches!(result, Err(Error::DuplicateKey(_))));
}

#[test]
fn records_added_after_the_snapshot_are_absent() {
    let mut store = KeyValueStore::empty();
    assert!(store.insert("a", "1").is_ok());
    let bytes = store.to_bytes().expect("encoding never fails");
    assert!(store.insert("b", "2").is_ok());
    let rebuilt = KeyValueStore::from_bytes(&bytes).expect("image should read back");
    assert_eq!(rebuilt.len().unwrap(), 1);
    assert!(rebuilt.get_clone("b").is_err());
}
