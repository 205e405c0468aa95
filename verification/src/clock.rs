//! The wall clock.

use vstd::prelude::*;

verus! {

/// Reads the current time with `chrono::Utc::now` and gives it as a Unix
/// timestamp in seconds (`DateTime::timestamp`).
///
/// Nothing is claimed of the value: callers are verified for every timestamp.
/// `Utc::now` gives up on a system clock set before 1970.
#[verifier::external_body]
pub(crate) fn unix_now() -> (now: i64) {
    chrono::Utc::now().timestamp()
}

} // verus!
