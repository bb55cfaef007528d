//! The wall clock, read as whole seconds since the unix epoch.

use vstd::prelude::*;

verus! {

/// The current wall-clock time as a unix timestamp in seconds.
///
/// Relies on time's `OffsetDateTime::now_utc` and `unix_timestamp`. The value
/// depends on the machine's clock, so nothing is promised of it; every caller
/// states what holds whatever reading comes back.
#[verifier::external_body]
pub fn create_now() -> i64 {
    time::OffsetDateTime::now_utc().unix_timestamp()
}

} // verus!
