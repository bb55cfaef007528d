use sdb::{DashStore, KeyValueStore, Row, Store};

fn exercise<S: Store>(store: &mut S) {
    assert!(store.insert("a", "1").is_ok());
    assert!(store.insert("a", "other").is_err());
    assert!(store.insert_row(&Row::new("b", "2", 3, 4)).is_ok());
    assert_eq!(store.len().unwrap(), 2);
    assert!(store.contains("a").unwrap());
    assert_eq!(store.get_clone("b").unwrap().value(), "2");
    assert!(store.set_or_insert("a", "updated").is_ok());
    assert_eq!(store.get_clone("a").unwrap().value(), "updated");
    assert!(store.set_or_insert_row(&Row::new("b", "replaced", 9, 10)).is_ok());
    assert_eq!(store.get_clone("b").unwrap().updated(), 10);
    let repr = store.to_disk_repr().unwrap();
    assert_eq!(repr.version, 1);
    assert_eq!(repr.data.len(), 2);
    assert_eq!(store.delete("a").unwrap().value(), "updated");
    assert!(store.delete("a").is_err());
    assert_eq!(store.len().unwrap(), 1);
}

#[test]
fn both_strategies_honor_the_capability_contract() {
    let mut table = KeyValueStore::empty();
    exercise(&mut table);
    let mut sharded = DashStore::empty();
    exercise(&mut sharded);
}
