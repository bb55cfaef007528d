//! Versioned snapshot envelopes for rows and whole stores.

use vstd::prelude::*;

use crate::row::{Row, RowView};

verus! {

/// The persisted image of one row: the same four fields, kept apart from the
/// live [`Row`] so the snapshot layout can outlive the in-memory type.
#[derive(Debug, PartialEq)]
pub struct RowDiskRepr {
    pub key: String,
    pub value: String,
    pub created: i64,
    pub updated: i64,
}

impl View for RowDiskRepr {
    type V = RowView;

    open spec fn view(&self) -> RowView {
        RowView {
            key: self.key@,
            value: self.value@,
            created: self.created as int,
            updated: self.updated as int,
        }
    }
}

impl Clone for RowDiskRepr {
    fn clone(&self) -> (r: Self)
        ensures
            r == *self,
    {
        RowDiskRepr {
            key: self.key.clone(),
            value: self.value.clone(),
            created: self.created,
            updated: self.updated,
        }
    }
}

impl From<Row> for RowDiskRepr {
    fn from(row: Row) -> (r: Self) {
        RowDiskRepr { key: row.key, value: row.value, created: row.created, updated: row.updated }
    }
}

impl vstd::std_specs::convert::FromSpecImpl<Row> for RowDiskRepr {
    open spec fn obeys_from_spec() -> bool {
        true
    }

    open spec fn from_spec(row: Row) -> RowDiskRepr {
        RowDiskRepr { key: row.key, value: row.value, created: row.created, updated: row.updated }
    }
}

impl From<&Row> for RowDiskRepr {
    fn from(row: &Row) -> (r: Self) {
        RowDiskRepr {
            key: row.key.clone(),
            value: row.value.clone(),
            created: row.created,
            updated: row.updated,
        }
    }
}

impl vstd::std_specs::convert::FromSpecImpl<&Row> for RowDiskRepr {
    open spec fn obeys_from_spec() -> bool {
        true
    }

    open spec fn from_spec(row: &Row) -> RowDiskRepr {
        RowDiskRepr { key: row.key, value: row.value, created: row.created, updated: row.updated }
    }
}

impl From<RowDiskRepr> for Row {
    fn from(repr: RowDiskRepr) -> (r: Self) {
        Row {
            key: repr.key,
            value: repr.value,
            created: repr.created,
            updated: repr.updated,
        }
    }
}

impl vstd::std_specs::convert::FromSpecImpl<RowDiskRepr> for Row {
    open spec fn obeys_from_spec() -> bool {
        true
    }

    open spec fn from_spec(repr: RowDiskRepr) -> Row {
        Row { key: repr.key, value: repr.value, created: repr.created, updated: repr.updated }
    }
}

impl From<&RowDiskRepr> for Row {
    fn from(repr: &RowDiskRepr) -> (r: Self) {
        Row {
            key: repr.key.clone(),
            value: repr.value.clone(),
            created: repr.created,
            updated: repr.updated,
        }
    }
}

impl vstd::std_specs::convert::FromSpecImpl<&RowDiskRepr> for Row {
    open spec fn obeys_from_spec() -> bool {
        true
    }

    open spec fn from_spec(repr: &RowDiskRepr) -> Row {
        Row { key: repr.key, value: repr.value, created: repr.created, updated: repr.updated }
    }
}

/// The images of a sequence of persisted rows.
pub open spec fn repr_views(data: Seq<RowDiskRepr>) -> Seq<RowView> {
    data.map_values(|d: RowDiskRepr| d@)
}

/// A versioned envelope wrapping an ordered sequence of row images, for
/// structured export and import.
#[derive(Debug, Clone)]
pub struct StoreDiskRepr {
    pub version: u8,
    pub data: Vec<RowDiskRepr>,
}

impl StoreDiskRepr {
    /// The snapshot version written by this build.
    pub fn current_version() -> (r: u8)
        ensures
            r == 1,
    {
        1
    }

    /// Wraps a copy of the given row images.
    pub fn new(data: &[RowDiskRepr]) -> (r: Self)
        ensures
            r.version == 1,
            r.data@ == data@,
    {
        let n = data.len();
        let mut copied: Vec<RowDiskRepr> = Vec::new();
        let mut i: usize = 0;
        while i < n
            invariant
                0 <= i <= n,
                n == data@.len(),
                copied@ =~= data@.subrange(0, i as int),
            decreases n - i,
        {
            copied.push(data[i].clone());
            i += 1;
        }
        proof {
            assert(copied@ =~= data@);
        }
        Self::from_vec(copied)
    }

    /// Wraps the given row images verbatim.
    pub fn from_vec(data: Vec<RowDiskRepr>) -> (r: Self)
        ensures
            r.version == 1,
            r.data == data,
    {
        StoreDiskRepr { version: 1, data }
    }
}

/// A versioned envelope wrapping an opaque serialized payload for file
/// transport.
#[derive(Debug, Clone)]
pub struct StoreByteRepr {
    pub version: u8,
    pub data: Vec<u8>,
}

impl StoreByteRepr {
    /// The envelope version written by this build.
    pub fn current_version() -> (r: u8)
        ensures
            r == 1,
    {
        1
    }

    /// Wraps a copy of the given payload.
    pub fn new(data: &[u8]) -> (r: Self)
        ensures
            r.version == 1,
            r.data@ == data@,
    {
        StoreByteRepr { version: 1, data: vstd::slice::slice_to_vec(data) }
    }
}

} // verus!
