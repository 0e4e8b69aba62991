//! The wall clock.

use vstd::prelude::*;

verus! {

/// The current time in milliseconds since the Unix epoch, UTC, as
/// `chrono::Utc::now` followed by `DateTime::timestamp_millis` gives it.
/// Nothing is claimed of the value: two calls may return anything.
#[verifier::external_body]
pub(crate) fn now_millis() -> (t: i64) {
    chrono::Utc::now().timestamp_millis()
}

} // verus!
