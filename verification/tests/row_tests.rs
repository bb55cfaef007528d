use sdb::{create_now, Row};

#[test]
fn new() {
    let now = create_now();
    let row = Row::new("key", "value", now, now);
    assert_eq!(row.key(), "key");
    assert_eq!(row.value(), "value");
    assert!(row.created() >= now - 1, "Expected {:?} to be gte {:?}", row.created(), now - 1);
    assert!(row.created() <= now + 1, "Expected {:?} to be lte {:?}", row.created(), now + 1);
    assert!(row.updated() >= now - 1, "Expected {:?} to be gte {:?}", row.updated(), now - 1);
    assert!(row.updated() <= now + 1, "Expected {:?} to be lte {:?}", row.updated(), now + 1);
}

#[test]
fn create() {
    let now = create_now();
    let row = Row::create("key", "value");
    assert_eq!(row.key(), "key");
    assert_eq!(row.value(), "value");
    assert!(row.created() >= now - 1, "Expected {:?} to be gte {:?}", row.created(), now - 1);
    assert!(row.created() <= now + 1, "Expected {:?} to be lte {:?}", row.created(), now + 1);
    assert!(row.updated() >= now - 1, "Expected {:?} to be gte {:?}", row.updated(), now - 1);
    assert!(row.updated() <= now + 1, "Expected {:?} to be lte {:?}", row.updated(), now + 1);
}

#[test]
fn update_same_value_is_a_no_op() {
    let mut row = Row::new("k", "v", 3, 4);
    row.update("v");
    assert_eq!(row.value(), "v");
    assert_eq!(row.created(), 3);
    assert_eq!(row.updated(), 4);
}

#[test]
fn update_new_value_moves_updated() {
    let before = create_now();
    let mut row = Row::new("k", "v", 3, 4);
    row.update("w");
    assert_eq!(row.value(), "w");
    assert_eq!(row.created(), 3);
    assert!(row.updated() >= before);
}

#[test]
fn clear_empties_the_value() {
    let before = create_now();
    let mut row = Row::new("k", "v", 3, 4);
    row.clear();
    assert_eq!(row.value(), "");
    assert_eq!(row.created(), 3);
    assert!(row.updated() >= before);
}

#[test]
fn touch_keeps_the_value() {
    let before = create_now();
    let mut row = Row::new("k", "v", 3, 4);
    row.touch();
    assert_eq!(row.value(), "v");
    assert_eq!(row.created(), 3);
    assert!(row.updated() >= before);
}

#[test]
fn overwrite_with_adopts_every_field() {
    let mut row = Row::new("k", "v", 3, 4);
    let other = Row::new("k2", "v2", 5, 6);
    row.overwrite_with(&other);
    assert_eq!(row, other);
}

#[test]
fn display_string_is_key_colon_value() {
    let row = Row::new("key", "value", 0, 0);
    assert_eq!(row.display_string(), "key:value");
}

#[test]
fn clocked_constructors_take_the_given_stamp() {
    let row = Row::create_at("k", "v", 42);
    assert_eq!(row.created(), 42);
    assert_eq!(row.updated(), 42);
    let mut row = row;
    row.update_at("w", 50);
    assert_eq!(row.updated(), 50);
    assert_eq!(row.created(), 42);
    row.touch_at(60);
    assert_eq!(row.updated(), 60);
    assert_eq!(row.value(), "w");
    row.clear_at(70);
    assert_eq!(row.value(), "");
    assert_eq!(row.updated(), 70);
}

#[test]
fn rows_order_lexicographically_by_fields() {
    let a = Row::new("a", "z", 9, 9);
    let b = Row::new("b", "a", 0, 0);
    assert!(a < b);
    let v1 = Row::new("k", "v1", 5, 5);
    let v2 = Row::new("k", "v2", 0, 0);
    assert!(v1 < v2);
    let older = Row::new("k", "v", 1, 2);
    let newer = Row::new("k", "v", 3, 2);
    assert!(older < newer);
    assert_eq!(older.max(Row::new("k", "v", 1, 2)), Row::new("k", "v", 1, 2));
}
