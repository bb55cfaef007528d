//! A minimal store: point lookups, a strict insert and an idempotent write,
//! with optional results instead of errors.

use vstd::prelude::*;

use crate::model::{
    find_row, has_key, keys_unique, lemma_keys_unique_push, lemma_remove_frees_key,
    lemma_row_map_dom, lemma_row_map_index, lemma_row_map_push, lemma_row_map_remove, row_map,
    views_of,
};
use crate::row::{Row, RowView};

verus! {

/// A reduced table with the same mapping invariant as the primary store: no
/// two entries share a key, and the view is the map from key to row image.
#[derive(Debug)]
pub struct KeyValueStore {
    rows: Vec<Row>,
}

impl View for KeyValueStore {
    type V = Map<Seq<char>, RowView>;

    closed spec fn view(&self) -> Map<Seq<char>, RowView> {
        row_map(views_of(self.rows@))
    }
}

impl KeyValueStore {
    /// No two rows of the table share a key.
    #[verifier::type_invariant]
    spec fn wf(self) -> bool {
        keys_unique(views_of(self.rows@))
    }

    /// Creates an empty store.
    pub fn new() -> (r: Self)
        ensures
            r@ == Map::<Seq<char>, RowView>::empty(),
    {
        let r = KeyValueStore { rows: Vec::new() };
        proof {
            assert(views_of(r.rows@).len() == 0);
        }
        r
    }

    /// Returns a copy of the row stored under `key`, if any is there.
    pub fn get_clone(&self, key: &str) -> (r: Option<Row>)
        ensures
            self@.contains_key(key@) ==> ({
                &&& r matches Some(row)
                &&& row@ == self@[key@]
            }),
            !self@.contains_key(key@) ==> r is None,
    {
        proof {
            use_type_invariant(&*self);
            lemma_row_map_dom(views_of(self.rows@));
        }
        match find_row(&self.rows, key) {
            Some(i) => {
                proof {
                    assert(views_of(self.rows@)[i as int].key == key@);
                    assert(has_key(views_of(self.rows@), key@));
                    lemma_row_map_index(views_of(self.rows@), i as int);
                }
                Some(self.rows[i].clone())
            },
            None => None,
        }
    }

    /// Inserts a fresh row under `key`, both timestamps carrying the current
    /// time; answers `None` without touching anything if the key is present.
    pub fn insert(&mut self, key: &str, value: &str) -> (r: Option<()>)
        ensures
            old(self)@.contains_key(key@) ==> r is None && *final(self) == *old(self),
            !old(self)@.contains_key(key@) ==> ({
                &&& r is Some
                &&& final(self)@.contains_key(key@)
                &&& final(self)@ == old(self)@.insert(key@, final(self)@[key@])
                &&& final(self)@[key@].key == key@
                &&& final(self)@[key@].value == value@
                &&& final(self)@[key@].created == final(self)@[key@].updated
            }),
    {
        proof {
            use_type_invariant(&*self);
            lemma_row_map_dom(views_of(self.rows@));
        }
        match find_row(&self.rows, key) {
            Some(i) => {
                proof {
                    assert(views_of(self.rows@)[i as int].key == key@);
                    assert(has_key(views_of(self.rows@), key@));
                }
                None
            },
            None => {
                let row = Row::create(key, value);
                let ghost pre = views_of(self.rows@);
                let mut rows: Vec<Row> = Vec::new();
                std::mem::swap(&mut rows, &mut self.rows);
                rows.push(row);
                proof {
                    assert(views_of(rows@) =~= pre.push(views_of(rows@).last()));
                    lemma_keys_unique_push(pre, views_of(rows@).last());
                    lemma_row_map_push(pre, views_of(rows@).last());
                }
                self.rows = rows;
                Some(())
            },
        }
    }

    /// Updates the row under `key` with `update` semantics (the timestamp
    /// moves only when the value moves), or inserts a fresh row stamped with
    /// the current time.
    pub fn set_or_insert(&mut self, key: &str, value: &str)
        ensures
            old(self)@.contains_key(key@) && old(self)@[key@].value == value@ ==> final(self)@
                == old(self)@,
            old(self)@.contains_key(key@) && old(self)@[key@].value != value@ ==> ({
                &&& final(self)@.contains_key(key@)
                &&& final(self)@ == old(self)@.insert(key@, final(self)@[key@])
                &&& final(self)@[key@].key == key@
                &&& final(self)@[key@].value == value@
                &&& final(self)@[key@].created == old(self)@[key@].created
            }),
            !old(self)@.contains_key(key@) ==> ({
                &&& final(self)@.contains_key(key@)
                &&& final(self)@ == old(self)@.insert(key@, final(self)@[key@])
                &&& final(self)@[key@].key == key@
                &&& final(self)@[key@].value == value@
                &&& final(self)@[key@].created == final(self)@[key@].updated
            }),
    {
        let now = crate::clock::create_now();
        proof {
            use_type_invariant(&*self);
            lemma_row_map_dom(views_of(self.rows@));
        }
        match find_row(&self.rows, key) {
            Some(i) => {
                let ghost pre = views_of(self.rows@);
                proof {
                    assert(pre[i as int].key == key@);
                    assert(has_key(pre, key@));
                    lemma_row_map_index(pre, i as int);
                    lemma_row_map_remove(pre, i as int);
                    lemma_remove_frees_key(pre, i as int);
                }
                let mut rows: Vec<Row> = Vec::new();
                std::mem::swap(&mut rows, &mut self.rows);
                let mut row = rows.remove(i);
                row.update_at(value, now);
                let ghost rv = row@;
                rows.push(row);
                proof {
                    assert(views_of(rows@) =~= pre.remove(i as int).push(rv));
                    lemma_keys_unique_push(pre.remove(i as int), rv);
                    lemma_row_map_push(pre.remove(i as int), rv);
                    assert(row_map(pre).remove(key@).insert(key@, rv) =~= row_map(pre).insert(
                        key@,
                        rv,
                    ));
                    if pre[i as int].value == value@ {
                        assert(row_map(pre).insert(key@, rv) =~= row_map(pre));
                    }
                }
                self.rows = rows;
            },
            None => {
                let row = Row::create_at(key, value, now);
                let ghost pre = views_of(self.rows@);
                let mut rows: Vec<Row> = Vec::new();
                std::mem::swap(&mut rows, &mut self.rows);
                rows.push(row);
                proof {
                    assert(views_of(rows@) =~= pre.push(views_of(rows@).last()));
                    lemma_keys_unique_push(pre, views_of(rows@).last());
                    lemma_row_map_push(pre, views_of(rows@).last());
                }
                self.rows = rows;
            },
        }
    }

    /// Whether `key` has an entry.
    pub fn contains(&self, key: &str) -> (r: bool)
        ensures
            r == self@.contains_key(key@),
    {
        proof {
            use_type_invariant(&*self);
            lemma_row_map_dom(views_of(self.rows@));
        }
        match find_row(&self.rows, key) {
            Some(i) => {
                proof {
                    assert(views_of(self.rows@)[i as int].key == key@);
                    assert(has_key(views_of(self.rows@), key@));
                }
                true
            },
            None => false,
        }
    }
}

impl Default for KeyValueStore {
    fn default() -> (r: Self)
        ensures
            r@ == Map::<Seq<char>, RowView>::empty(),
    {
        KeyValueStore::new()
    }
}

} // verus!
