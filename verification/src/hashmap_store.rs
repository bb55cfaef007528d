//! The primary store: one owned table mapping each key to exactly one row.

use vstd::prelude::*;

use crate::codec::{decode_rows, decode_store, encode_rows, encode_store, rows_encodable};
use crate::disk::{repr_views, RowDiskRepr, StoreDiskRepr};
use crate::error::Error;
use crate::model::{
    find_row, has_key, keys_unique, lemma_keys_unique_push, lemma_remove_frees_key,
    lemma_row_map_dom, lemma_row_map_index, lemma_row_map_len, lemma_row_map_push,
    lemma_row_map_remove, row_map, views_of,
};
use crate::row::{Row, RowView};

verus! {

/// The table mapping each key (unique) to exactly one [`Row`]. The mapping is
/// the sole source of truth; its view is the map from key to row image.
#[derive(Debug)]
pub struct KeyValueStore {
    rows: Vec<Row>,
}

impl View for KeyValueStore {
    type V = Map<Seq<char>, RowView>;

    closed spec fn view(&self) -> Map<Seq<char>, RowView> {
        row_map(views_of(self.rows@))
    }
}

impl KeyValueStore {
    /// No two rows of the table share a key.
    #[verifier::type_invariant]
    spec fn wf(self) -> bool {
        keys_unique(views_of(self.rows@))
    }

    /// Creates an empty store.
    pub fn empty() -> (r: Self)
        ensures
            r@ == Map::<Seq<char>, RowView>::empty(),
    {
        let r = KeyValueStore { rows: Vec::new() };
        proof {
            assert(views_of(r.rows@).len() == 0);
        }
        r
    }

    /// Returns a copy of the row stored under `key`, or `KeyNotFound`.
    pub fn get_clone(&self, key: &str) -> (r: Result<Row, Error>)
        ensures
            self@.contains_key(key@) ==> ({
                &&& r matches Ok(row)
                &&& row@ == self@[key@]
            }),
            !self@.contains_key(key@) ==> ({
                &&& r matches Err(e)
                &&& e matches Error::KeyNotFound(k)
                &&& k@ == key@
            }),
    {
        proof {
            use_type_invariant(&*self);
            lemma_row_map_dom(views_of(self.rows@));
        }
        match find_row(&self.rows, key) {
            Some(i) => {
                proof {
                    assert(views_of(self.rows@)[i as int].key == key@);
                    assert(has_key(views_of(self.rows@), key@));
                    lemma_row_map_index(views_of(self.rows@), i as int);
                }
                Ok(self.rows[i].clone())
            },
            None => Err(Error::key_not_found(key)),
        }
    }

    /// Whether `key` has an entry.
    pub fn contains(&self, key: &str) -> (r: Result<bool, Error>)
        ensures
            r matches Ok(b) && b == self@.contains_key(key@),
    {
        proof {
            use_type_invariant(&*self);
            lemma_row_map_dom(views_of(self.rows@));
        }
        match find_row(&self.rows, key) {
            Some(i) => {
                proof {
                    assert(views_of(self.rows@)[i as int].key == key@);
                    assert(has_key(views_of(self.rows@), key@));
                }
                Ok(true)
            },
            None => Ok(false),
        }
    }

    /// The number of entries; the store's map is finite.
    pub fn len(&self) -> (r: Result<usize, Error>)
        ensures
            r matches Ok(n) && n == self@.dom().len(),
            self@.dom().finite(),
    {
        proof {
            use_type_invariant(&*self);
            lemma_row_map_len(views_of(self.rows@));
        }
        Ok(self.rows.len())
    }

    /// Inserts a fresh row under `key`, both timestamps carrying the given
    /// clock reading; fails with `DuplicateKey` if the key is present.
    pub fn insert_at(&mut self, key: &str, value: &str, now: i64) -> (r: Result<(), Error>)
        ensures
            old(self)@.contains_key(key@) ==> ({
                &&& *final(self) == *old(self)
                &&& r matches Err(e)
                &&& e matches Error::DuplicateKey(k)
                &&& k@ == key@
            }),
            !old(self)@.contains_key(key@) ==> ({
                &&& r is Ok
                &&& final(self)@ == old(self)@.insert(
                    key@,
                    (RowView {
                        key: key@,
                        value: value@,
                        created: now as int,
                        updated: now as int,
                    }),
                )
            }),
    {
        proof {
            use_type_invariant(&*self);
            lemma_row_map_dom(views_of(self.rows@));
        }
        match find_row(&self.rows, key) {
            Some(i) => {
                proof {
                    assert(views_of(self.rows@)[i as int].key == key@);
                    assert(has_key(views_of(self.rows@), key@));
                }
                Err(Error::duplicate_key(key))
            },
            None => {
                let row = Row::create_at(key, value, now);
                let ghost pre = views_of(self.rows@);
                let mut rows: Vec<Row> = Vec::new();
                std::mem::swap(&mut rows, &mut self.rows);
                rows.push(row);
                proof {
                    assert(views_of(rows@) =~= pre.push(views_of(rows@).last()));
                    lemma_keys_unique_push(pre, views_of(rows@).last());
                    lemma_row_map_push(pre, views_of(rows@).last());
                }
                self.rows = rows;
                Ok(())
            },
        }
    }

    /// Inserts a fresh row under `key`, both timestamps carrying the current
    /// time; fails with `DuplicateKey` if the key is present.
    pub fn insert(&mut self, key: &str, value: &str) -> (r: Result<(), Error>)
        ensures
            old(self)@.contains_key(key@) ==> ({
                &&& *final(self) == *old(self)
                &&& r matches Err(e)
                &&& e matches Error::DuplicateKey(k)
                &&& k@ == key@
            }),
            !old(self)@.contains_key(key@) ==> {
                &&& r is Ok
                &&& final(self)@.contains_key(key@)
                &&& final(self)@ == old(self)@.insert(key@, final(self)@[key@])
                &&& final(self)@[key@].key == key@
                &&& final(self)@[key@].value == value@
                &&& final(self)@[key@].created == final(self)@[key@].updated
            },
    {
        let now = crate::clock::create_now();
        self.insert_at(key, value, now)
    }

    /// Inserts a fully-formed row verbatim under its own key; fails with
    /// `DuplicateKey` if the key is present. Used when rehydrating.
    pub fn insert_row(&mut self, row: &Row) -> (r: Result<(), Error>)
        ensures
            old(self)@.contains_key(row@.key) ==> ({
                &&& *final(self) == *old(self)
                &&& r matches Err(e)
                &&& e matches Error::DuplicateKey(k)
                &&& k@ == row@.key
            }),
            !old(self)@.contains_key(row@.key) ==> ({
                &&& r is Ok
                &&& final(self)@ == old(self)@.insert(row@.key, row@)
            }),
    {
        proof {
            use_type_invariant(&*self);
            lemma_row_map_dom(views_of(self.rows@));
        }
        match find_row(&self.rows, row.key()) {
            Some(i) => {
                proof {
                    assert(views_of(self.rows@)[i as int].key == row@.key);
                    assert(has_key(views_of(self.rows@), row@.key));
                }
                Err(Error::duplicate_key(row.key()))
            },
            None => {
                let fresh = row.clone();
                let ghost pre = views_of(self.rows@);
                let mut rows: Vec<Row> = Vec::new();
                std::mem::swap(&mut rows, &mut self.rows);
                rows.push(fresh);
                proof {
                    assert(views_of(rows@) =~= pre.push(row@));
                    lemma_keys_unique_push(pre, row@);
                    lemma_row_map_push(pre, row@);
                }
                self.rows = rows;
                Ok(())
            },
        }
    }

    /// Updates the row under `key` with `update` semantics (the timestamp
    /// moves only when the value moves), or inserts a fresh row. The clock
    /// reading used is the given one. Never fails.
    pub fn set_or_insert_at(&mut self, key: &str, value: &str, now: i64) -> (r: Result<(), Error>)
        ensures
            r is Ok,
            !old(self)@.contains_key(key@) ==> final(self)@ == old(self)@.insert(
                key@,
                (RowView { key: key@, value: value@, created: now as int, updated: now as int }),
            ),
            old(self)@.contains_key(key@) && old(self)@[key@].value == value@ ==> final(self)@
                == old(self)@,
            old(self)@.contains_key(key@) && old(self)@[key@].value != value@ ==> final(self)@
                == old(self)@.insert(
                key@,
                (RowView {
                    key: key@,
                    value: value@,
                    created: old(self)@[key@].created,
                    updated: now as int,
                }),
            ),
    {
        proof {
            use_type_invariant(&*self);
            lemma_row_map_dom(views_of(self.rows@));
        }
        match find_row(&self.rows, key) {
            Some(i) => {
                let ghost pre = views_of(self.rows@);
                proof {
                    assert(pre[i as int].key == key@);
                    assert(has_key(pre, key@));
                    lemma_row_map_index(pre, i as int);
                    lemma_row_map_remove(pre, i as int);
                    lemma_remove_frees_key(pre, i as int);
                }
                let mut rows: Vec<Row> = Vec::new();
                std::mem::swap(&mut rows, &mut self.rows);
                let mut row = rows.remove(i);
                row.update_at(value, now);
                let ghost rv = row@;
                rows.push(row);
                proof {
                    assert(views_of(rows@) =~= pre.remove(i as int).push(rv));
                    lemma_keys_unique_push(pre.remove(i as int), rv);
                    lemma_row_map_push(pre.remove(i as int), rv);
                    assert(row_map(pre).remove(key@).insert(key@, rv) =~= row_map(pre).insert(
                        key@,
                        rv,
                    ));
                    if pre[i as int].value == value@ {
                        assert(row_map(pre).insert(key@, rv) =~= row_map(pre));
                    }
                }
                self.rows = rows;
                Ok(())
            },
            None => {
                let row = Row::create_at(key, value, now);
                let ghost pre = views_of(self.rows@);
                let mut rows: Vec<Row> = Vec::new();
                std::mem::swap(&mut rows, &mut self.rows);
                rows.push(row);
                proof {
                    assert(views_of(rows@) =~= pre.push(views_of(rows@).last()));
                    lemma_keys_unique_push(pre, views_of(rows@).last());
                    lemma_row_map_push(pre, views_of(rows@).last());
                }
                self.rows = rows;
                Ok(())
            },
        }
    }

    /// Updates the row under `key` with `update` semantics, or inserts a
    /// fresh row, the clock read at the call. Never fails.
    pub fn set_or_insert(&mut self, key: &str, value: &str) -> (r: Result<(), Error>)
        ensures
            r is Ok,
            old(self)@.contains_key(key@) && old(self)@[key@].value == value@ ==> final(self)@
                == old(self)@,
            old(self)@.contains_key(key@) && old(self)@[key@].value != value@ ==> {
                &&& final(self)@.contains_key(key@)
                &&& final(self)@ == old(self)@.insert(key@, final(self)@[key@])
                &&& final(self)@[key@].key == key@
                &&& final(self)@[key@].value == value@
                &&& final(self)@[key@].created == old(self)@[key@].created
            },
            !old(self)@.contains_key(key@) ==> {
                &&& final(self)@.contains_key(key@)
                &&& final(self)@ == old(self)@.insert(key@, final(self)@[key@])
                &&& final(self)@[key@].key == key@
                &&& final(self)@[key@].value == value@
                &&& final(self)@[key@].created == final(self)@[key@].updated
            },
    {
        let now = crate::clock::create_now();
        self.set_or_insert_at(key, value, now)
    }

    /// Replaces the row under the given row's key wholesale — timestamps
    /// adopted from the argument — or inserts it verbatim. Never fails.
    pub fn set_or_insert_row(&mut self, row: &Row) -> (r: Result<(), Error>)
        ensures
            r is Ok,
            final(self)@ == old(self)@.insert(row@.key, row@),
    {
        proof {
            use_type_invariant(&*self);
            lemma_row_map_dom(views_of(self.rows@));
        }
        match find_row(&self.rows, row.key()) {
            Some(i) => {
                let ghost pre = views_of(self.rows@);
                proof {
                    assert(pre[i as int].key == row@.key);
                    assert(has_key(pre, row@.key));
                    lemma_row_map_remove(pre, i as int);
                    lemma_remove_frees_key(pre, i as int);
                }
                let mut rows: Vec<Row> = Vec::new();
                std::mem::swap(&mut rows, &mut self.rows);
                rows.remove(i);
                rows.push(row.clone());
                proof {
                    assert(views_of(rows@) =~= pre.remove(i as int).push(row@));
                    lemma_keys_unique_push(pre.remove(i as int), row@);
                    lemma_row_map_push(pre.remove(i as int), row@);
                    assert(row_map(pre).remove(row@.key).insert(row@.key, row@) =~= row_map(
                        pre,
                    ).insert(row@.key, row@));
                }
                self.rows = rows;
                Ok(())
            },
            None => {
                let ghost pre = views_of(self.rows@);
                let mut rows: Vec<Row> = Vec::new();
                std::mem::swap(&mut rows, &mut self.rows);
                rows.push(row.clone());
                proof {
                    assert(views_of(rows@) =~= pre.push(row@));
                    lemma_keys_unique_push(pre, row@);
                    lemma_row_map_push(pre, row@);
                }
                self.rows = rows;
                Ok(())
            },
        }
    }

    /// Removes and returns the row under `key`, or `KeyNotFound`.
    pub fn delete(&mut self, key: &str) -> (r: Result<Row, Error>)
        ensures
            old(self)@.contains_key(key@) ==> ({
                &&& r matches Ok(row)
                &&& row@ == old(self)@[key@]
                &&& final(self)@ == old(self)@.remove(key@)
            }),
            !old(self)@.contains_key(key@) ==> ({
                &&& *final(self) == *old(self)
                &&& r matches Err(e)
                &&& e matches Error::KeyNotFound(k)
                &&& k@ == key@
            }),
    {
        proof {
            use_type_invariant(&*self);
            lemma_row_map_dom(views_of(self.rows@));
        }
        match find_row(&self.rows, key) {
            Some(i) => {
                let ghost pre = views_of(self.rows@);
                proof {
                    assert(pre[i as int].key == key@);
                    assert(has_key(pre, key@));
                    lemma_row_map_index(pre, i as int);
                    lemma_row_map_remove(pre, i as int);
                }
                let mut rows: Vec<Row> = Vec::new();
                std::mem::swap(&mut rows, &mut self.rows);
                let row = rows.remove(i);
                proof {
                    assert(views_of(rows@) =~= pre.remove(i as int));
                }
                self.rows = rows;
                Ok(row)
            },
            None => Err(Error::key_not_found(key)),
        }
    }

    /// Snapshots the store into the versioned disk representation without
    /// consuming it. The order of the rows is implementation-defined; the
    /// snapshot carries exactly the store's entries, each under its own key.
    pub fn to_disk(&self) -> (r: Result<StoreDiskRepr, Error>)
        ensures
            r matches Ok(repr) && ({
                &&& repr.version == 1
                &&& repr.data@.len() == self@.dom().len()
                &&& keys_unique(repr_views(repr.data@))
                &&& forall|i: int|
                    0 <= i < repr.data@.len() ==> self@.contains_key(
                        #[trigger] repr.data@[i]@.key,
                    ) && self@[repr.data@[i]@.key] == repr.data@[i]@
            }),
    {
        proof {
            use_type_invariant(&*self);
            lemma_row_map_len(views_of(self.rows@));
        }
        let n = self.rows.len();
        let mut data: Vec<RowDiskRepr> = Vec::new();
        let mut i: usize = 0;
        while i < n
            invariant
                0 <= i <= n,
                n == self.rows@.len(),
                data@.len() == i,
                forall|j: int| 0 <= j < i ==> #[trigger] data@[j]@ == views_of(self.rows@)[j],
            decreases n - i,
        {
            data.push(RowDiskRepr::from(&self.rows[i]));
            i += 1;
        }
        proof {
            use_type_invariant(&*self);
            assert forall|j: int| 0 <= j < data@.len() implies self@.contains_key(
                #[trigger] data@[j]@.key,
            ) && self@[data@[j]@.key] == data@[j]@ by {
                lemma_row_map_index(views_of(self.rows@), j);
            }
        }
        Ok(StoreDiskRepr::from_vec(data))
    }

    /// Snapshots the store into the versioned disk representation, consuming
    /// it.
    pub fn into_disk(self) -> (r: Result<StoreDiskRepr, Error>)
        ensures
            r matches Ok(repr) && ({
                &&& repr.version == 1
                &&& repr.data@.len() == self@.dom().len()
                &&& keys_unique(repr_views(repr.data@))
                &&& forall|i: int|
                    0 <= i < repr.data@.len() ==> self@.contains_key(
                        #[trigger] repr.data@[i]@.key,
                    ) && self@[repr.data@[i]@.key] == repr.data@[i]@
            }),
    {
        self.to_disk()
    }

    /// Rebuilds a store from a snapshot, preserving every stored timestamp.
    /// A snapshot of an unrecognized version is a hard read error, and a
    /// snapshot holding the same key twice is rejected with `DuplicateKey`.
    pub fn from_disk(disk: &StoreDiskRepr) -> (r: Result<Self, Error>)
        ensures
            disk.version != 1 ==> ({
                &&& r matches Err(e)
                &&& e is DeserializationFailure
            }),
            disk.version == 1 && keys_unique(repr_views(disk.data@)) ==> ({
                &&& r matches Ok(s)
                &&& s@ == row_map(repr_views(disk.data@))
            }),
            disk.version == 1 && !keys_unique(repr_views(disk.data@)) ==> ({
                &&& r matches Err(e)
                &&& e matches Error::DuplicateKey(k)
                &&& exists|i: int, j: int|
                    0 <= i < j < repr_views(disk.data@).len() && #[trigger] repr_views(
                        disk.data@,
                    )[i].key == k@ && #[trigger] repr_views(disk.data@)[j].key == k@
            }),
    {
        if disk.version != 1 {
            return Err(Error::DeserializationFailure("unrecognized snapshot version".to_owned()));
        }
        let ghost vs = repr_views(disk.data@);
        let n = disk.data.len();
        let mut s = KeyValueStore::empty();
        let mut i: usize = 0;
        while i < n
            invariant
                0 <= i <= n,
                n == disk.data@.len(),
                disk.version == 1,
                vs == repr_views(disk.data@),
                keys_unique(vs.subrange(0, i as int)),
                s@ == row_map(vs.subrange(0, i as int)),
            decreases n - i,
        {
            let ghost prefix = vs.subrange(0, i as int);
            let row = Row::from(&disk.data[i]);
            match s.insert_row(&row) {
                Ok(_) => {
                    proof {
                        lemma_row_map_dom(prefix);
                        assert(!has_key(prefix, row@.key));
                        lemma_keys_unique_push(prefix, row@);
                        lemma_row_map_push(prefix, row@);
                        assert(vs.subrange(0, i + 1) =~= prefix.push(row@));
                    }
                },
                Err(e) => {
                    proof {
                        lemma_row_map_dom(prefix);
                        assert(has_key(prefix, row@.key));
                        let jj = choose|jj: int|
                            0 <= jj < prefix.len() && #[trigger] prefix[jj].key == row@.key;
                        assert(vs[jj].key == row@.key);
                        assert(vs[i as int].key == row@.key);
                        assert(!keys_unique(vs)) by {
                            if keys_unique(vs) {
                                assert(vs[jj].key != vs[i as int].key);
                            }
                        }
                    }
                    return Err(e);
                },
            }
            i += 1;
        }
        proof {
            assert(vs.subrange(0, n as int) =~= vs);
        }
        Ok(s)
    }

    /// Serializes the whole table into a flat byte image: every record with
    /// all four fields exactly, in the table's own (implementation-defined)
    /// order. Never fails.
    pub fn to_bytes(&self) -> (r: Result<Vec<u8>, Error>)
        ensures
            r matches Ok(bytes) && (exists|rows: Seq<RowView>|
                {
                    &&& #[trigger] encode_store(rows) == bytes@
                    &&& rows_encodable(rows)
                    &&& keys_unique(rows)
                    &&& row_map(rows) == self@
                }),
    {
        proof {
            use_type_invariant(&*self);
        }
        let bytes = encode_rows(&self.rows);
        proof {
            let rows = views_of(self.rows@);
            assert(encode_store(rows) == bytes@ && rows_encodable(rows) && keys_unique(rows)
                && row_map(rows) == self@);
        }
        Ok(bytes)
    }

    /// Rebuilds a store from a flat byte image, preserving every record
    /// field exactly. A malformed image is a hard read error; an image
    /// holding the same key twice is rejected with `DuplicateKey`.
    pub fn from_bytes(bytes: &[u8]) -> (r: Result<Self, Error>)
        ensures
            decode_store(bytes@) is None ==> ({
                &&& r matches Err(e)
                &&& e is DeserializationFailure
            }),
            decode_store(bytes@) matches Some(rows) ==> ({
                &&& keys_unique(rows) ==> ({
                    &&& r matches Ok(s)
                    &&& s@ == row_map(rows)
                })
                &&& !keys_unique(rows) ==> ({
                    &&& r matches Err(e)
                    &&& e is DuplicateKey
                })
            }),
    {
        match decode_rows(bytes) {
            Ok(rows) => Self::from_rows(rows),
            Err(e) => Err(e),
        }
    }

    /// Builds a store over the given rows, each under its own key; rejects a
    /// repeated key with `DuplicateKey`.
    fn from_rows(rows: Vec<Row>) -> (r: Result<Self, Error>)
        ensures
            keys_unique(views_of(rows@)) ==> ({
                &&& r matches Ok(s)
                &&& s@ == row_map(views_of(rows@))
            }),
            !keys_unique(views_of(rows@)) ==> ({
                &&& r matches Err(e)
                &&& e is DuplicateKey
            }),
    {
        let ghost vs = views_of(rows@);
        let n = rows.len();
        let mut s = KeyValueStore::empty();
        let mut i: usize = 0;
        while i < n
            invariant
                0 <= i <= n,
                n == rows@.len(),
                vs == views_of(rows@),
                keys_unique(vs.subrange(0, i as int)),
                s@ == row_map(vs.subrange(0, i as int)),
            decreases n - i,
        {
            let ghost prefix = vs.subrange(0, i as int);
            match s.insert_row(&rows[i]) {
                Ok(_) => {
                    proof {
                        lemma_row_map_dom(prefix);
                        assert(!has_key(prefix, vs[i as int].key));
                        lemma_keys_unique_push(prefix, vs[i as int]);
                        lemma_row_map_push(prefix, vs[i as int]);
                        assert(vs.subrange(0, i + 1) =~= prefix.push(vs[i as int]));
                    }
                },
                Err(e) => {
                    proof {
                        lemma_row_map_dom(prefix);
                        assert(has_key(prefix, vs[i as int].key));
                        let jj = choose|jj: int|
                            0 <= jj < prefix.len() && #[trigger] prefix[jj].key == vs[
                                i as int
                            ].key;
                        assert(vs[jj].key == vs[i as int].key);
                        assert(!keys_unique(vs)) by {
                            if keys_unique(vs) {
                                assert(vs[jj].key != vs[i as int].key);
                            }
                        }
                    }
                    return Err(e);
                },
            }
            i += 1;
        }
        proof {
            assert(vs.subrange(0, n as int) =~= vs);
        }
        Ok(s)
    }

    /// Builds a store from key/row pairs; on a repeated key the later pair
    /// wins. A pair whose key differs from its row's own key is rejected
    /// with `KeyValueMismatch`.
    pub fn from_pairs(pairs: Vec<(String, Row)>) -> (r: Result<Self, Error>)
        ensures
            (forall|i: int|
                0 <= i < pairs@.len() ==> (#[trigger] pairs@[i].0)@ == pairs@[i].1@.key) ==> ({
                &&& r matches Ok(s)
                &&& s@ == row_map(pairs@.map_values(|p: (String, Row)| p.1@))
            }),
            r is Err ==> exists|i: int|
                0 <= i < pairs@.len() && (#[trigger] pairs@[i].0)@ != pairs@[i].1@.key,
            r matches Err(e) ==> e is KeyValueMismatch,
    {
        let ghost rvs = pairs@.map_values(|p: (String, Row)| p.1@);
        let n = pairs.len();
        let mut s = KeyValueStore::empty();
        let mut i: usize = 0;
        while i < n
            invariant
                0 <= i <= n,
                n == pairs@.len(),
                rvs == pairs@.map_values(|p: (String, Row)| p.1@),
                s@ == row_map(rvs.subrange(0, i as int)),
                forall|j: int| 0 <= j < i ==> (#[trigger] pairs@[j].0)@ == pairs@[j].1@.key,
            decreases n - i,
        {
            let pair = &pairs[i];
            if !crate::strings::str_eq(pair.0.as_str(), pair.1.key.as_str()) {
                return Err(Error::KeyValueMismatch(pair.0.clone(), pair.1.clone()));
            }
            let _ = s.set_or_insert_row(&pair.1);
            proof {
                lemma_row_map_push(rvs.subrange(0, i as int), rvs[i as int]);
                assert(rvs.subrange(0, i + 1) =~= rvs.subrange(0, i as int).push(rvs[i as int]));
            }
            i += 1;
        }
        proof {
            assert(rvs.subrange(0, n as int) =~= rvs);
        }
        Ok(s)
    }
}

impl crate::Store for KeyValueStore {
    open spec fn contents(&self) -> Map<Seq<char>, RowView> {
        self@
    }

    fn get_clone(&self, key: &str) -> (r: Result<Row, Error>) {
        KeyValueStore::get_clone(self, key)
    }

    fn insert(&mut self, key: &str, value: &str) -> (r: Result<(), Error>) {
        KeyValueStore::insert(self, key, value)
    }

    fn insert_row(&mut self, row: &Row) -> (r: Result<(), Error>) {
        KeyValueStore::insert_row(self, row)
    }

    fn set_or_insert(&mut self, key: &str, value: &str) -> (r: Result<(), Error>) {
        KeyValueStore::set_or_insert(self, key, value)
    }

    fn set_or_insert_row(&mut self, row: &Row) -> (r: Result<(), Error>) {
        KeyValueStore::set_or_insert_row(self, row)
    }

    fn contains(&self, key: &str) -> (r: Result<bool, Error>) {
        KeyValueStore::contains(self, key)
    }

    fn len(&self) -> (r: Result<usize, Error>) {
        KeyValueStore::len(self)
    }

    fn delete(&mut self, key: &str) -> (r: Result<Row, Error>) {
        KeyValueStore::delete(self, key)
    }

    fn to_disk_repr(&self) -> (r: Result<StoreDiskRepr, Error>) {
        KeyValueStore::to_disk(self)
    }
}

impl Default for KeyValueStore {
    fn default() -> (r: Self)
        ensures
            r@ == Map::<Seq<char>, RowView>::empty(),
    {
        KeyValueStore::empty()
    }
}

} // verus!
