//! A small in-memory key-value store.
//!
//! Records carry a key, a value and two provenance timestamps; stores map
//! unique keys to records, can be snapshotted to a disk representation or a
//! flat byte encoding, and a dispatcher maps typed requests onto one store.

use vstd::prelude::*;

mod clock;
mod codec;
pub mod config;
mod dashmap_store;
mod disk;
mod error;
mod hashmap_store;
pub mod laws;
mod model;
mod row;
pub mod server;
pub mod store;
mod strings;

pub use clock::create_now;
pub use config::{DataConfig, Settings, WalConfig};
pub use dashmap_store::DashStore;
pub use disk::{RowDiskRepr, StoreByteRepr, StoreDiskRepr};
pub use error::Error;
pub use hashmap_store::KeyValueStore;
pub use row::Row;
pub use server::StupidServer;

verus! {

/// One capability contract over the concrete storage strategies — the
/// primary owned table and the sharded concurrent map — so that callers
/// need not be hard-coded to either.
pub trait Store: Sized {
    /// The store read as a map from key to row image.
    spec fn contents(&self) -> Map<Seq<char>, row::RowView>;

    /// Returns a copy of the row stored under `key`, or `KeyNotFound`.
    fn get_clone(&self, key: &str) -> (r: Result<Row, Error>)
        ensures
            self.contents().contains_key(key@) ==> ({
                &&& r matches Ok(row)
                &&& row@ == self.contents()[key@]
            }),
            !self.contents().contains_key(key@) ==> ({
                &&& r matches Err(e)
                &&& e matches Error::KeyNotFound(k)
                &&& k@ == key@
            }),
    ;

    /// Inserts a fresh row under `key`, both timestamps carrying the
    /// current time; fails with `DuplicateKey` if the key is present.
    fn insert(&mut self, key: &str, value: &str) -> (r: Result<(), Error>)
        ensures
            old(self).contents().contains_key(key@) ==> ({
                &&& final(self).contents() == old(self).contents()
                &&& r matches Err(e)
                &&& e matches Error::DuplicateKey(k)
                &&& k@ == key@
            }),
            !old(self).contents().contains_key(key@) ==> ({
                &&& r is Ok
                &&& final(self).contents().contains_key(key@)
                &&& final(self).contents() == old(self).contents().insert(
                    key@,
                    final(self).contents()[key@],
                )
                &&& final(self).contents()[key@].key == key@
                &&& final(self).contents()[key@].value == value@
                &&& final(self).contents()[key@].created == final(self).contents()[key@].updated
            }),
    ;

    /// Inserts a fully-formed row verbatim under its own key; fails with
    /// `DuplicateKey` if the key is present.
    fn insert_row(&mut self, row: &Row) -> (r: Result<(), Error>)
        ensures
            old(self).contents().contains_key(row@.key) ==> ({
                &&& final(self).contents() == old(self).contents()
                &&& r matches Err(e)
                &&& e matches Error::DuplicateKey(k)
                &&& k@ == row@.key
            }),
            !old(self).contents().contains_key(row@.key) ==> ({
                &&& r is Ok
                &&& final(self).contents() == old(self).contents().insert(row@.key, row@)
            }),
    ;

    /// Updates the row under `key` with `update` semantics (the timestamp
    /// moves only when the value moves), or inserts a fresh row. Never
    /// fails.
    fn set_or_insert(&mut self, key: &str, value: &str) -> (r: Result<(), Error>)
        ensures
            r is Ok,
            old(self).contents().contains_key(key@) && old(self).contents()[key@].value == value@
                ==> final(self).contents() == old(self).contents(),
            old(self).contents().contains_key(key@) && old(self).contents()[key@].value != value@
                ==> ({
                &&& final(self).contents().contains_key(key@)
                &&& final(self).contents() == old(self).contents().insert(
                    key@,
                    final(self).contents()[key@],
                )
                &&& final(self).contents()[key@].key == key@
                &&& final(self).contents()[key@].value == value@
                &&& final(self).contents()[key@].created == old(self).contents()[key@].created
            }),
            !old(self).contents().contains_key(key@) ==> ({
                &&& final(self).contents().contains_key(key@)
                &&& final(self).contents() == old(self).contents().insert(
                    key@,
                    final(self).contents()[key@],
                )
                &&& final(self).contents()[key@].key == key@
                &&& final(self).contents()[key@].value == value@
                &&& final(self).contents()[key@].created == final(self).contents()[key@].updated
            }),
    ;

    /// Replaces the row under the given row's key wholesale, or inserts it
    /// verbatim. Never fails.
    fn set_or_insert_row(&mut self, row: &Row) -> (r: Result<(), Error>)
        ensures
            r is Ok,
            final(self).contents() == old(self).contents().insert(row@.key, row@),
    ;

    /// Whether `key` has an entry.
    fn contains(&self, key: &str) -> (r: Result<bool, Error>)
        ensures
            r matches Ok(b) && b == self.contents().contains_key(key@),
    ;

    /// The number of entries; the store's map is finite.
    fn len(&self) -> (r: Result<usize, Error>)
        ensures
            r matches Ok(n) && n == self.contents().dom().len(),
            self.contents().dom().finite(),
    ;

    /// Removes and returns the row under `key`, or `KeyNotFound`.
    fn delete(&mut self, key: &str) -> (r: Result<Row, Error>)
        ensures
            old(self).contents().contains_key(key@) ==> ({
                &&& r matches Ok(row)
                &&& row@ == old(self).contents()[key@]
                &&& final(self).contents() == old(self).contents().remove(key@)
            }),
            !old(self).contents().contains_key(key@) ==> ({
                &&& final(self).contents() == old(self).contents()
                &&& r matches Err(e)
                &&& e matches Error::KeyNotFound(k)
                &&& k@ == key@
            }),
    ;

    /// Snapshots the store into the versioned disk representation.
    fn to_disk_repr(&self) -> (r: Result<StoreDiskRepr, Error>)
        ensures
            r matches Ok(repr) && ({
                &&& repr.version == 1
                &&& repr.data@.len() == self.contents().dom().len()
                &&& model::keys_unique(disk::repr_views(repr.data@))
                &&& forall|i: int|
                    0 <= i < repr.data@.len() ==> self.contents().contains_key(
                        #[trigger] repr.data@[i]@.key,
                    ) && self.contents()[repr.data@[i]@.key] == repr.data@[i]@
            }),
    ;
}

} // verus!
