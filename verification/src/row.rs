//! The versioned record stored under each key.

use vstd::prelude::*;
use vstd::string::StringExecFns;

verus! {

/// Mathematical image of a [`Row`]: the four fields as sequences and integers.
pub ghost struct RowView {
    pub key: Seq<char>,
    pub value: Seq<char>,
    pub created: int,
    pub updated: int,
}

/// One stored key/value entry with creation/update provenance timestamps.
///
/// `key` is the record's immutable identity; `created` is set once at
/// construction; `updated` moves only when the value moves (or on an explicit
/// touch or clear).
#[derive(Debug, PartialEq, Eq, PartialOrd, Ord)]
pub struct Row {
    pub key: String,
    pub value: String,
    pub created: i64,
    pub updated: i64,
}

impl Clone for Row {
    fn clone(&self) -> (r: Self)
        ensures
            r == *self,
    {
        Row {
            key: self.key.clone(),
            value: self.value.clone(),
            created: self.created,
            updated: self.updated,
        }
    }
}

impl View for Row {
    type V = RowView;

    open spec fn view(&self) -> RowView {
        RowView {
            key: self.key@,
            value: self.value@,
            created: self.created as int,
            updated: self.updated as int,
        }
    }
}

impl Row {
    /// Gets the `key` of this `Row`.
    pub fn key(&self) -> (r: &str)
        ensures
            r@ == self@.key,
    {
        self.key.as_str()
    }

    /// Gets the `value` of this `Row`.
    pub fn value(&self) -> (r: &str)
        ensures
            r@ == self@.value,
    {
        self.value.as_str()
    }

    /// Gets the `created` timestamp value of this `Row`.
    pub fn created(&self) -> (r: i64)
        ensures
            r == self@.created,
    {
        self.created
    }

    /// Gets the `updated` timestamp value of this `Row`.
    pub fn updated(&self) -> (r: i64)
        ensures
            r == self@.updated,
    {
        self.updated
    }

    /// Creates a new `Row` object with the given values. Use this to create a
    /// row object that matches data you already have on hand; use
    /// [`Row::create`] when a new `Row` is being created by the user.
    pub fn new(key: &str, value: &str, created: i64, updated: i64) -> (r: Self)
        ensures
            r@ == (RowView { key: key@, value: value@, created: created as int, updated: updated as int }),
    {
        Row {
            key: key.to_owned(),
            value: value.to_owned(),
            created,
            updated,
        }
    }

    /// Creates a new `Row` whose `created` and `updated` stamps both carry the
    /// given clock reading. [`Row::create`] feeds this with the current time.
    pub fn create_at(key: &str, value: &str, now: i64) -> (r: Self)
        ensures
            r@ == (RowView { key: key@, value: value@, created: now as int, updated: now as int }),
    {
        Row {
            key: key.to_owned(),
            value: value.to_owned(),
            created: now,
            updated: now,
        }
    }

    /// Creates a new Row with the given `key` and `value`, setting `created`
    /// and `updated` to the current time. Use [`Row::new`] to create a row
    /// with full control over the `created` and `updated` fields.
    pub fn create(key: &str, value: &str) -> (r: Self)
        ensures
            r@.key == key@,
            r@.value == value@,
            r@.created == r@.updated,
    {
        let now = crate::clock::create_now();
        Self::create_at(key, value, now)
    }

    /// Replaces the `value` of this `Row` and stamps `updated` with the
    /// current time; a row whose value is unchanged is left exactly as it
    /// was.
    pub fn update(&mut self, value: &str)
        ensures
            old(self)@.value == value@ ==> *final(self) == *old(self),
            old(self)@.value != value@ ==> {
                &&& final(self)@.key == old(self)@.key
                &&& final(self)@.value == value@
                &&& final(self)@.created == old(self)@.created
            },
    {
        let now = crate::clock::create_now();
        self.update_at(value, now);
    }

    /// Empties the `value` of this row and stamps `updated` with the current
    /// time.
    pub fn clear(&mut self)
        ensures
            final(self)@.key == old(self)@.key,
            final(self)@.value == Seq::<char>::empty(),
            final(self)@.created == old(self)@.created,
    {
        let now = crate::clock::create_now();
        self.clear_at(now);
    }

    /// Stamps `updated` with the current time without changing any other
    /// data.
    pub fn touch(&mut self)
        ensures
            final(self)@.key == old(self)@.key,
            final(self)@.value == old(self)@.value,
            final(self)@.created == old(self)@.created,
    {
        let now = crate::clock::create_now();
        self.touch_at(now);
    }

    /// Replaces the `value` of this `Row` and stamps `updated` with the given
    /// clock reading — unless the value is unchanged, in which case the row is
    /// left exactly as it was.
    pub fn update_at(&mut self, value: &str, now: i64)
        ensures
            old(self)@.value == value@ ==> *final(self) == *old(self),
            old(self)@.value != value@ ==> final(self)@ == (RowView {
                value: value@,
                updated: now as int,
                ..old(self)@
            }),
    {
        if !crate::strings::str_eq(value, self.value.as_str()) {
            self.value = value.to_owned();
            self.updated = now;
        }
    }

    /// Empties the `value` of this row and stamps `updated` with the given
    /// clock reading.
    pub fn clear_at(&mut self, now: i64)
        ensures
            final(self)@ == (RowView { value: Seq::<char>::empty(), updated: now as int, ..old(self)@ }),
    {
        self.value = String::new();
        self.updated = now;
    }

    /// Stamps `updated` with the given clock reading without changing any
    /// other data.
    pub fn touch_at(&mut self, now: i64)
        ensures
            final(self)@ == (RowView { updated: now as int, ..old(self)@ }),
    {
        self.updated = now;
    }

    /// Overwrites all values in this [`Row`] with the values from `other`.
    pub fn overwrite_with(&mut self, other: &Row)
        ensures
            final(self)@ == other@,
    {
        self.key = other.key.clone();
        self.value = other.value.clone();
        self.created = other.created;
        self.updated = other.updated;
    }

    /// The row's display form, `"{key}:{value}"`.
    pub fn display_string(&self) -> (r: String)
        ensures
            r@ == self@.key + ":"@ + self@.value,
    {
        let mut s = String::new();
        s.append(self.key.as_str());
        s.append(":");
        s.append(self.value.as_str());
        s
    }
}

} // verus!
