//! The error taxonomy shared by every store operation.

use vstd::prelude::*;
use vstd::string::StringExecFns;

use crate::row::Row;

verus! {

/// Everything a store operation can fail with. All of these are recoverable
/// at the call site; none is process-fatal.
#[derive(Debug, PartialEq)]
pub enum Error {
    /// The looked-up key has no entry.
    KeyNotFound(String),
    /// A caller's key argument conflicts with the record's own key field.
    KeyValueMismatch(String, Row),
    /// A strict insert found the key already present.
    DuplicateKey(String),
    /// A lock guarding a store was poisoned by an earlier panic.
    MutexPoisoned(String),
    /// Encoding a store into bytes failed.
    SerializationFailure(String),
    /// Decoding a store from bytes failed.
    DeserializationFailure(String),
}

impl Error {
    /// The human-readable text of this error.
    pub open spec fn message_view(&self) -> Seq<char> {
        match self {
            Error::KeyNotFound(k) => "key '"@ + k@ + "' not found"@,
            Error::KeyValueMismatch(k, row) => "key '"@ + k@ + "' does not match key of row '"@
                + row@.key + ":"@ + row@.value + "'"@,
            Error::DuplicateKey(k) => "key '"@ + k@ + "' already exists"@,
            Error::MutexPoisoned(m) => "mutex poisoned: '"@ + m@ + "'"@,
            Error::SerializationFailure(m) => "error occurred during serialization: '"@ + m@
                + "'"@,
            Error::DeserializationFailure(m) => "error occurred during deserialization: '"@ + m@
                + "'"@,
        }
    }

    pub fn key_not_found(key: &str) -> (r: Self)
        ensures
            r matches Error::KeyNotFound(k) && k@ == key@,
    {
        Error::KeyNotFound(key.to_owned())
    }

    pub fn duplicate_key(key: &str) -> (r: Self)
        ensures
            r matches Error::DuplicateKey(k) && k@ == key@,
    {
        Error::DuplicateKey(key.to_owned())
    }

    pub fn mutex_poisoned(msg: &str) -> (r: Self)
        ensures
            r matches Error::MutexPoisoned(m) && m@ == msg@,
    {
        Error::MutexPoisoned(msg.to_owned())
    }

    /// The error rendered as text, always non-empty.
    pub fn message(&self) -> (r: String)
        ensures
            r@ == self.message_view(),
            r@.len() > 0,
    {
        proof {
            reveal_strlit("key '");
        }
        let mut s = String::new();
        match self {
            Error::KeyNotFound(k) => {
                s.append("key '");
                s.append(k.as_str());
                s.append("' not found");
            },
            Error::KeyValueMismatch(k, row) => {
                s.append("key '");
                s.append(k.as_str());
                s.append("' does not match key of row '");
                s.append(row.key.as_str());
                s.append(":");
                s.append(row.value.as_str());
                s.append("'");
            },
            Error::DuplicateKey(k) => {
                s.append("key '");
                s.append(k.as_str());
                s.append("' already exists");
            },
            Error::MutexPoisoned(m) => {
                proof {
                    reveal_strlit("mutex poisoned: '");
                }
                s.append("mutex poisoned: '");
                s.append(m.as_str());
                s.append("'");
            },
            Error::SerializationFailure(m) => {
                proof {
                    reveal_strlit("error occurred during serialization: '");
                }
                s.append("error occurred during serialization: '");
                s.append(m.as_str());
                s.append("'");
            },
            Error::DeserializationFailure(m) => {
                proof {
                    reveal_strlit("error occurred during deserialization: '");
                }
                s.append("error occurred during deserialization: '");
                s.append(m.as_str());
                s.append("'");
            },
        }
        s
    }
}

} // verus!
