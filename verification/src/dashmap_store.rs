//! The sharded concurrent-map strategy: the same store capability as the
//! primary table, held in dashmap's `DashMap` behind trusted wrappers.

use dashmap::DashMap;
use vstd::prelude::*;

use crate::codec::{decode_rows, decode_store, encode_rows, encode_store, rows_encodable};
use crate::disk::{repr_views, RowDiskRepr, StoreDiskRepr};
use crate::error::Error;
use crate::model::{
    has_key, keys_unique, lemma_keys_unique_push, lemma_row_map_complete, lemma_row_map_dom,
    lemma_row_map_index, lemma_row_map_push, row_map, views_of,
};
use crate::row::{Row, RowView};

verus! {

#[verifier::external_type_specification]
#[verifier::external_body]
#[verifier::reject_recursive_types(K)]
#[verifier::reject_recursive_types(V)]
#[verifier::reject_recursive_types(S)]
pub struct ExDashMap<K, V, S>(DashMap<K, V, S>);

/// What a `DashMap` of rows holds: its entries, as a map from key to the
/// image of the row stored under that key.
pub uninterp spec fn dash_contents(m: DashMap<String, Row>) -> Map<Seq<char>, RowView>;

/// A map with no entries.
pub open spec fn no_entries() -> Map<Seq<char>, RowView> {
    Map::empty()
}

/// Relies on `DashMap::new`: the new map is empty.
#[verifier::external_body]
fn dash_new() -> (r: DashMap<String, Row>)
    ensures
        dash_contents(r) == no_entries(),
{
    DashMap::new()
}

/// Relies on `DashMap::contains_key`: whether an entry is under the key.
#[verifier::external_body]
fn dash_contains(m: &DashMap<String, Row>, key: &str) -> (r: bool)
    ensures
        r == dash_contents(*m).contains_key(key@),
{
    m.contains_key(key)
}

/// Relies on `DashMap::get`: the entry under the key, cloned.
#[verifier::external_body]
fn dash_get(m: &DashMap<String, Row>, key: &str) -> (r: Option<Row>)
    ensures
        dash_contents(*m).contains_key(key@) ==> r is Some,
        dash_contents(*m).contains_key(key@) ==> r->Some_0@ == dash_contents(*m)[key@],
        !dash_contents(*m).contains_key(key@) ==> r is None,
{
    m.get(key).map(|entry| entry.clone())
}

/// Relies on `DashMap::insert`: the row goes in under the key, and the
/// value previously there, if any, comes back out.
#[verifier::external_body]
fn dash_insert(m: &mut DashMap<String, Row>, key: String, row: Row) -> (r: Option<Row>)
    ensures
        dash_contents(*final(m)) == dash_contents(*old(m)).insert(key@, row@),
        dash_contents(*old(m)).contains_key(key@) ==> ({
            &&& r matches Some(prev)
            &&& prev@ == dash_contents(*old(m))[key@]
        }),
        !dash_contents(*old(m)).contains_key(key@) ==> r is None,
{
    m.insert(key, row)
}

/// Relies on `DashMap::remove`: the entry under the key leaves and comes
/// back out, if there was one.
#[verifier::external_body]
fn dash_remove(m: &mut DashMap<String, Row>, key: &str) -> (r: Option<Row>)
    ensures
        dash_contents(*final(m)) == dash_contents(*old(m)).remove(key@),
        dash_contents(*old(m)).contains_key(key@) ==> ({
            &&& r matches Some(row)
            &&& row@ == dash_contents(*old(m))[key@]
        }),
        !dash_contents(*old(m)).contains_key(key@) ==> r is None,
{
    m.remove(key).map(|kv| kv.1)
}

/// Relies on `DashMap::len`: the number of entries, which is finite.
#[verifier::external_body]
fn dash_len(m: &DashMap<String, Row>) -> (r: usize)
    ensures
        r == dash_contents(*m).dom().len(),
{
    m.len()
}

/// Relies on `DashMap::iter`: every entry exactly once — its key and its
/// value, cloned — in an unspecified order.
#[verifier::external_body]
fn dash_entries(m: &DashMap<String, Row>) -> (r: Vec<(String, Row)>)
    ensures
        r@.len() == dash_contents(*m).dom().len(),
        forall|i: int, j: int|
            0 <= i < j < r@.len() ==> (#[trigger] r@[i].0)@ != (#[trigger] r@[j].0)@,
        forall|i: int|
            0 <= i < r@.len() ==> dash_contents(*m).contains_key((#[trigger] r@[i].0)@)
                && dash_contents(*m)[r@[i].0@] == r@[i].1@,
{
    m.iter().map(|entry| (entry.key().clone(), entry.value().clone())).collect()
}

/// The sharded/lock-striped concurrent map strategy: per-shard exclusion
/// inside dashmap, the same capability set as the primary store outside.
#[derive(Debug)]
pub struct DashStore {
    data: DashMap<String, Row>,
}

impl View for DashStore {
    type V = Map<Seq<char>, RowView>;

    closed spec fn view(&self) -> Map<Seq<char>, RowView> {
        dash_contents(self.data)
    }
}

impl DashStore {
    /// The entries are finitely many, and each sits under its own row's
    /// key.
    #[verifier::type_invariant]
    spec fn wf(self) -> bool {
        &&& dash_contents(self.data).dom().finite()
        &&& forall|k: Seq<char>|
            dash_contents(self.data).contains_key(k) ==> (#[trigger] dash_contents(
                self.data,
            )[k]).key == k
    }

    /// Creates an empty store.
    pub fn empty() -> (r: Self)
        ensures
            r@ == Map::<Seq<char>, RowView>::empty(),
    {
        DashStore { data: dash_new() }
    }

    /// Returns a copy of the row stored under `key`, or `KeyNotFound`.
    pub fn get_clone(&self, key: &str) -> (r: Result<Row, Error>)
        ensures
            self@.contains_key(key@) ==> ({
                &&& r matches Ok(row)
                &&& row@ == self@[key@]
            }),
            !self@.contains_key(key@) ==> ({
                &&& r matches Err(e)
                &&& e matches Error::KeyNotFound(k)
                &&& k@ == key@
            }),
    {
        match dash_get(&self.data, key) {
            Some(row) => Ok(row),
            None => Err(Error::key_not_found(key)),
        }
    }

    /// Inserts a fresh row under `key`, both timestamps carrying the current
    /// time; fails with `DuplicateKey` if the key is present.
    pub fn insert(&mut self, key: &str, value: &str) -> (r: Result<(), Error>)
        ensures
            old(self)@.contains_key(key@) ==> ({
                &&& *final(self) == *old(self)
                &&& r matches Err(e)
                &&& e matches Error::DuplicateKey(k)
                &&& k@ == key@
            }),
            !old(self)@.contains_key(key@) ==> ({
                &&& r is Ok
                &&& final(self)@.contains_key(key@)
                &&& final(self)@ == old(self)@.insert(key@, final(self)@[key@])
                &&& final(self)@[key@].key == key@
                &&& final(self)@[key@].value == value@
                &&& final(self)@[key@].created == final(self)@[key@].updated
            }),
    {
        proof {
            use_type_invariant(&*self);
        }
        if dash_contains(&self.data, key) {
            return Err(Error::duplicate_key(key));
        }
        let row = Row::create(key, value);
        let mut data = dash_new();
        std::mem::swap(&mut data, &mut self.data);
        let _prev = dash_insert(&mut data, key.to_owned(), row);
        self.data = data;
        Ok(())
    }

    /// Inserts a fully-formed row verbatim under its own key; fails with
    /// `DuplicateKey` if the key is present. Used when rehydrating.
    pub fn insert_row(&mut self, row: &Row) -> (r: Result<(), Error>)
        ensures
            old(self)@.contains_key(row@.key) ==> ({
                &&& *final(self) == *old(self)
                &&& r matches Err(e)
                &&& e matches Error::DuplicateKey(k)
                &&& k@ == row@.key
            }),
            !old(self)@.contains_key(row@.key) ==> ({
                &&& r is Ok
                &&& final(self)@ == old(self)@.insert(row@.key, row@)
            }),
    {
        proof {
            use_type_invariant(&*self);
        }
        if dash_contains(&self.data, row.key()) {
            return Err(Error::duplicate_key(row.key()));
        }
        let fresh = row.clone();
        let mut data = dash_new();
        std::mem::swap(&mut data, &mut self.data);
        let _prev = dash_insert(&mut data, fresh.key.clone(), fresh);
        self.data = data;
        Ok(())
    }

    /// Updates the row under `key` with `update` semantics (the timestamp
    /// moves only when the value moves), or inserts a fresh row, the clock
    /// read at the call. Never fails.
    pub fn set_or_insert(&mut self, key: &str, value: &str) -> (r: Result<(), Error>)
        ensures
            r is Ok,
            old(self)@.contains_key(key@) && old(self)@[key@].value == value@ ==> final(self)@
                == old(self)@,
            old(self)@.contains_key(key@) && old(self)@[key@].value != value@ ==> ({
                &&& final(self)@.contains_key(key@)
                &&& final(self)@ == old(self)@.insert(key@, final(self)@[key@])
                &&& final(self)@[key@].key == key@
                &&& final(self)@[key@].value == value@
                &&& final(self)@[key@].created == old(self)@[key@].created
            }),
            !old(self)@.contains_key(key@) ==> ({
                &&& final(self)@.contains_key(key@)
                &&& final(self)@ == old(self)@.insert(key@, final(self)@[key@])
                &&& final(self)@[key@].key == key@
                &&& final(self)@[key@].value == value@
                &&& final(self)@[key@].created == final(self)@[key@].updated
            }),
    {
        let now = crate::clock::create_now();
        proof {
            use_type_invariant(&*self);
        }
        let mut data = dash_new();
        std::mem::swap(&mut data, &mut self.data);
        match dash_get(&data, key) {
            Some(mut row) => {
                row.update_at(value, now);
                let ghost rv = row@;
                let _prev = dash_insert(&mut data, key.to_owned(), row);
                proof {
                    if old(self)@[key@].value == value@ {
                        assert(old(self)@.insert(key@, rv) =~= old(self)@);
                    }
                }
            },
            None => {
                let _prev = dash_insert(&mut data, key.to_owned(), Row::create_at(key, value, now));
            },
        }
        self.data = data;
        Ok(())
    }

    /// Replaces the row under the given row's key wholesale — timestamps
    /// adopted from the argument — or inserts it verbatim. Never fails.
    pub fn set_or_insert_row(&mut self, row: &Row) -> (r: Result<(), Error>)
        ensures
            r is Ok,
            final(self)@ == old(self)@.insert(row@.key, row@),
    {
        proof {
            use_type_invariant(&*self);
        }
        let fresh = row.clone();
        let mut data = dash_new();
        std::mem::swap(&mut data, &mut self.data);
        let _prev = dash_insert(&mut data, fresh.key.clone(), fresh);
        self.data = data;
        Ok(())
    }

    /// Whether `key` has an entry.
    pub fn contains(&self, key: &str) -> (r: Result<bool, Error>)
        ensures
            r matches Ok(b) && b == self@.contains_key(key@),
    {
        Ok(dash_contains(&self.data, key))
    }

    /// The number of entries; the store's map is finite.
    pub fn len(&self) -> (r: Result<usize, Error>)
        ensures
            r matches Ok(n) && n == self@.dom().len(),
            self@.dom().finite(),
    {
        proof {
            use_type_invariant(&*self);
        }
        Ok(dash_len(&self.data))
    }

    /// Removes and returns the row under `key`, or `KeyNotFound`.
    pub fn delete(&mut self, key: &str) -> (r: Result<Row, Error>)
        ensures
            old(self)@.contains_key(key@) ==> ({
                &&& r matches Ok(row)
                &&& row@ == old(self)@[key@]
                &&& final(self)@ == old(self)@.remove(key@)
            }),
            !old(self)@.contains_key(key@) ==> ({
                &&& final(self)@ == old(self)@
                &&& r matches Err(e)
                &&& e matches Error::KeyNotFound(k)
                &&& k@ == key@
            }),
    {
        proof {
            use_type_invariant(&*self);
        }
        let mut data = dash_new();
        std::mem::swap(&mut data, &mut self.data);
        let removed = dash_remove(&mut data, key);
        proof {
            if !old(self)@.contains_key(key@) {
                assert(old(self)@.remove(key@) =~= old(self)@);
            }
        }
        self.data = data;
        match removed {
            Some(row) => Ok(row),
            None => Err(Error::key_not_found(key)),
        }
    }

    /// All rows of the store, cloned, in an unspecified order: each sits in
    /// the store under its own key, and no two share one. The row-key facts
    /// rest on the store's invariant, not on the iteration itself.
    fn snapshot_rows(&self) -> (r: Vec<Row>)
        ensures
            r@.len() == self@.dom().len(),
            keys_unique(views_of(r@)),
            forall|i: int|
                0 <= i < r@.len() ==> self@.contains_key(#[trigger] r@[i]@.key)
                    && self@[r@[i]@.key] == r@[i]@,
    {
        proof {
            use_type_invariant(&*self);
        }
        let pairs = dash_entries(&self.data);
        let n = pairs.len();
        let mut rows: Vec<Row> = Vec::new();
        let mut i: usize = 0;
        while i < n
            invariant
                0 <= i <= n,
                n == pairs@.len(),
                rows@.len() == i,
                forall|j: int| 0 <= j < i ==> #[trigger] rows@[j] == pairs@[j].1,
            decreases n - i,
        {
            rows.push(pairs[i].1.clone());
            i += 1;
        }
        proof {
            let vs = views_of(rows@);
            assert forall|k: int| 0 <= k < vs.len() implies (#[trigger] vs[k]).key
                == pairs@[k].0@ by {
                assert(dash_contents(self.data).contains_key(pairs@[k].0@));
                assert(dash_contents(self.data)[pairs@[k].0@] == pairs@[k].1@);
            }
            assert forall|x: int, y: int| 0 <= x < y < vs.len() implies (#[trigger] vs[x]).key != (
            #[trigger] vs[y]).key by {
                assert(vs[x].key == pairs@[x].0@);
                assert(vs[y].key == pairs@[y].0@);
                assert(pairs@[x].0@ != pairs@[y].0@);
            }
            assert forall|k: int| 0 <= k < rows@.len() implies self@.contains_key(
                (#[trigger] rows@[k]@).key,
            ) && self@[rows@[k]@.key] == rows@[k]@ by {
                assert(vs[k] == rows@[k]@);
                assert(vs[k].key == pairs@[k].0@);
                assert(dash_contents(self.data).contains_key(pairs@[k].0@));
                assert(dash_contents(self.data)[pairs@[k].0@] == pairs@[k].1@);
            }
        }
        rows
    }

    /// Serializes the whole table into a flat byte image: every record with
    /// all four fields exactly, in an unspecified order. Never fails.
    pub fn to_bytes(&self) -> (r: Result<Vec<u8>, Error>)
        ensures
            r matches Ok(bytes) && (exists|rows: Seq<RowView>|
                {
                    &&& #[trigger] encode_store(rows) == bytes@
                    &&& rows_encodable(rows)
                    &&& keys_unique(rows)
                    &&& row_map(rows) == self@
                }),
    {
        proof {
            use_type_invariant(&*self);
        }
        let rows = self.snapshot_rows();
        let bytes = encode_rows(&rows);
        proof {
            let vs = views_of(rows@);
            lemma_row_map_complete(vs, self@);
            assert(encode_store(vs) == bytes@ && rows_encodable(vs) && keys_unique(vs) && row_map(
                vs,
            ) == self@);
        }
        Ok(bytes)
    }

    /// Rebuilds a store from a flat byte image, preserving every record
    /// field exactly. A malformed image is a hard read error; an image
    /// holding the same key twice is rejected with `DuplicateKey`.
    pub fn from_bytes(bytes: &[u8]) -> (r: Result<Self, Error>)
        ensures
            decode_store(bytes@) is None ==> ({
                &&& r matches Err(e)
                &&& e is DeserializationFailure
            }),
            decode_store(bytes@) matches Some(rows) ==> ({
                &&& keys_unique(rows) ==> ({
                    &&& r matches Ok(s)
                    &&& s@ == row_map(rows)
                })
                &&& !keys_unique(rows) ==> ({
                    &&& r matches Err(e)
                    &&& e is DuplicateKey
                })
            }),
    {
        match decode_rows(bytes) {
            Ok(rows) => Self::from_rows(rows),
            Err(e) => Err(e),
        }
    }

    /// Builds a store over the given rows, each under its own key; rejects
    /// a repeated key with `DuplicateKey`.
    fn from_rows(rows: Vec<Row>) -> (r: Result<Self, Error>)
        ensures
            keys_unique(views_of(rows@)) ==> ({
                &&& r matches Ok(s)
                &&& s@ == row_map(views_of(rows@))
            }),
            !keys_unique(views_of(rows@)) ==> ({
                &&& r matches Err(e)
                &&& e is DuplicateKey
            }),
    {
        let ghost vs = views_of(rows@);
        let n = rows.len();
        let mut data = dash_new();
        let mut i: usize = 0;
        while i < n
            invariant
                0 <= i <= n,
                n == rows@.len(),
                vs == views_of(rows@),
                keys_unique(vs.subrange(0, i as int)),
                dash_contents(data) == row_map(vs.subrange(0, i as int)),
            decreases n - i,
        {
            let ghost prefix = vs.subrange(0, i as int);
            if dash_contains(&data, rows[i].key()) {
                proof {
                    lemma_row_map_dom(prefix);
                    assert(has_key(prefix, vs[i as int].key));
                    let jj = choose|jj: int|
                        0 <= jj < prefix.len() && #[trigger] prefix[jj].key == vs[i as int].key;
                    assert(vs[jj].key == vs[i as int].key);
                    assert(!keys_unique(vs)) by {
                        if keys_unique(vs) {
                            assert(vs[jj].key != vs[i as int].key);
                        }
                    }
                }
                return Err(Error::duplicate_key(rows[i].key()));
            }
            let fresh = rows[i].clone();
            let _prev = dash_insert(&mut data, fresh.key.clone(), fresh);
            proof {
                lemma_row_map_dom(prefix);
                lemma_keys_unique_push(prefix, vs[i as int]);
                lemma_row_map_push(prefix, vs[i as int]);
                assert(vs.subrange(0, i + 1) =~= prefix.push(vs[i as int]));
            }
            i += 1;
        }
        proof {
            assert(vs.subrange(0, n as int) =~= vs);
            crate::model::lemma_row_map_finite(vs);
            assert forall|k: Seq<char>| dash_contents(data).contains_key(k) implies (
            #[trigger] dash_contents(data)[k]).key == k by {
                lemma_row_map_dom(vs);
                assert(has_key(vs, k));
                let j = choose|j: int| 0 <= j < vs.len() && #[trigger] vs[j].key == k;
                lemma_row_map_index(vs, j);
            }
        }
        Ok(DashStore { data })
    }

    /// Builds a store from key/row pairs; on a repeated key the later pair
    /// wins. A pair whose key differs from its row's own key is rejected
    /// with `KeyValueMismatch`.
    pub fn from_pairs(pairs: Vec<(String, Row)>) -> (r: Result<Self, Error>)
        ensures
            (forall|i: int|
                0 <= i < pairs@.len() ==> (#[trigger] pairs@[i].0)@ == pairs@[i].1@.key) ==> ({
                &&& r matches Ok(s)
                &&& s@ == row_map(pairs@.map_values(|p: (String, Row)| p.1@))
            }),
            r is Err ==> exists|i: int|
                0 <= i < pairs@.len() && (#[trigger] pairs@[i].0)@ != pairs@[i].1@.key,
            r matches Err(e) ==> e is KeyValueMismatch,
    {
        let ghost rvs = pairs@.map_values(|p: (String, Row)| p.1@);
        let n = pairs.len();
        let mut data = dash_new();
        let mut i: usize = 0;
        while i < n
            invariant
                0 <= i <= n,
                n == pairs@.len(),
                rvs == pairs@.map_values(|p: (String, Row)| p.1@),
                dash_contents(data) == row_map(rvs.subrange(0, i as int)),
                forall|j: int| 0 <= j < i ==> (#[trigger] pairs@[j].0)@ == pairs@[j].1@.key,
                forall|k: Seq<char>|
                    dash_contents(data).contains_key(k) ==> (#[trigger] dash_contents(
                        data,
                    )[k]).key == k,
            decreases n - i,
        {
            let pair = &pairs[i];
            if !crate::strings::str_eq(pair.0.as_str(), pair.1.key.as_str()) {
                return Err(Error::KeyValueMismatch(pair.0.clone(), pair.1.clone()));
            }
            let _prev = dash_insert(&mut data, pair.0.clone(), pair.1.clone());
            proof {
                lemma_row_map_push(rvs.subrange(0, i as int), rvs[i as int]);
                assert(rvs.subrange(0, i + 1) =~= rvs.subrange(0, i as int).push(rvs[i as int]));
            }
            i += 1;
        }
        proof {
            assert(rvs.subrange(0, n as int) =~= rvs);
            crate::model::lemma_row_map_finite(rvs);
        }
        Ok(DashStore { data })
    }

    /// Snapshots the store into the versioned disk representation without
    /// consuming it. The order of the rows is unspecified; the snapshot
    /// carries exactly the store's entries, each under its own key.
    pub fn to_disk(&self) -> (r: Result<StoreDiskRepr, Error>)
        ensures
            r matches Ok(repr) && ({
                &&& repr.version == 1
                &&& repr.data@.len() == self@.dom().len()
                &&& keys_unique(repr_views(repr.data@))
                &&& forall|i: int|
                    0 <= i < repr.data@.len() ==> self@.contains_key(
                        #[trigger] repr.data@[i]@.key,
                    ) && self@[repr.data@[i]@.key] == repr.data@[i]@
            }),
    {
        let rows = self.snapshot_rows();
        let n = rows.len();
        let mut data: Vec<RowDiskRepr> = Vec::new();
        let mut i: usize = 0;
        while i < n
            invariant
                0 <= i <= n,
                n == rows@.len(),
                data@.len() == i,
                forall|j: int| 0 <= j < i ==> #[trigger] data@[j]@ == views_of(rows@)[j],
            decreases n - i,
        {
            data.push(RowDiskRepr::from(&rows[i]));
            i += 1;
        }
        proof {
            assert(repr_views(data@) =~= views_of(rows@));
        }
        Ok(StoreDiskRepr::from_vec(data))
    }

    /// Snapshots the store into the versioned disk representation,
    /// consuming it.
    pub fn into_disk(self) -> (r: Result<StoreDiskRepr, Error>)
        ensures
            r matches Ok(repr) && ({
                &&& repr.version == 1
                &&& repr.data@.len() == self@.dom().len()
                &&& keys_unique(repr_views(repr.data@))
                &&& forall|i: int|
                    0 <= i < repr.data@.len() ==> self@.contains_key(
                        #[trigger] repr.data@[i]@.key,
                    ) && self@[repr.data@[i]@.key] == repr.data@[i]@
            }),
    {
        self.to_disk()
    }

    /// Rebuilds a store from a snapshot, preserving every stored timestamp.
    /// A snapshot of an unrecognized version is a hard read error, and a
    /// snapshot holding the same key twice is rejected with `DuplicateKey`.
    pub fn from_disk(disk: &StoreDiskRepr) -> (r: Result<Self, Error>)
        ensures
            disk.version != 1 ==> ({
                &&& r matches Err(e)
                &&& e is DeserializationFailure
            }),
            disk.version == 1 && keys_unique(repr_views(disk.data@)) ==> ({
                &&& r matches Ok(s)
                &&& s@ == row_map(repr_views(disk.data@))
            }),
            disk.version == 1 && !keys_unique(repr_views(disk.data@)) ==> ({
                &&& r matches Err(e)
                &&& e is DuplicateKey
            }),
    {
        if disk.version != 1 {
            return Err(Error::DeserializationFailure("unrecognized snapshot version".to_owned()));
        }
        let n = disk.data.len();
        let mut rows: Vec<Row> = Vec::new();
        let mut i: usize = 0;
        while i < n
            invariant
                0 <= i <= n,
                n == disk.data@.len(),
                views_of(rows@) =~= repr_views(disk.data@).subrange(0, i as int),
            decreases n - i,
        {
            let row = Row::from(&disk.data[i]);
            proof {
                assert(row@ == disk.data@[i as int]@);
            }
            let ghost pre_rows = rows@;
            rows.push(row);
            proof {
                assert(views_of(rows@) =~= views_of(pre_rows).push(row@));
                assert(repr_views(disk.data@).subrange(0, i + 1) =~= repr_views(
                    disk.data@,
                ).subrange(0, i as int).push(disk.data@[i as int]@));
                assert(views_of(rows@) =~= repr_views(disk.data@).subrange(0, i + 1));
            }
            i += 1;
        }
        proof {
            assert(repr_views(disk.data@).subrange(0, n as int) =~= repr_views(disk.data@));
        }
        Self::from_rows(rows)
    }
}

impl crate::Store for DashStore {
    open spec fn contents(&self) -> Map<Seq<char>, RowView> {
        self@
    }

    fn get_clone(&self, key: &str) -> (r: Result<Row, Error>) {
        DashStore::get_clone(self, key)
    }

    fn insert(&mut self, key: &str, value: &str) -> (r: Result<(), Error>) {
        DashStore::insert(self, key, value)
    }

    fn insert_row(&mut self, row: &Row) -> (r: Result<(), Error>) {
        DashStore::insert_row(self, row)
    }

    fn set_or_insert(&mut self, key: &str, value: &str) -> (r: Result<(), Error>) {
        DashStore::set_or_insert(self, key, value)
    }

    fn set_or_insert_row(&mut self, row: &Row) -> (r: Result<(), Error>) {
        DashStore::set_or_insert_row(self, row)
    }

    fn contains(&self, key: &str) -> (r: Result<bool, Error>) {
        DashStore::contains(self, key)
    }

    fn len(&self) -> (r: Result<usize, Error>) {
        DashStore::len(self)
    }

    fn delete(&mut self, key: &str) -> (r: Result<Row, Error>) {
        DashStore::delete(self, key)
    }

    fn to_disk_repr(&self) -> (r: Result<StoreDiskRepr, Error>) {
        DashStore::to_disk(self)
    }
}

impl Default for DashStore {
    fn default() -> (r: Self)
        ensures
            r@ == Map::<Seq<char>, RowView>::empty(),
    {
        DashStore::empty()
    }
}

} // verus!
