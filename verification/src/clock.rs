//! The wall clock that stamps new records.

use vstd::prelude::*;

verus! {

/// Reads the current time as milliseconds since the Unix epoch.
///
/// Calls `chrono::Utc::now()` and `DateTime::timestamp_millis()`.  Nothing is
/// claimed of the value: two reads may differ, and the clock may be set to
/// any instant.  `chrono` itself stops the process when the system clock
/// reads earlier than the epoch.
#[verifier::external_body]
pub(crate) fn now_millis() -> (millis: i64) {
    chrono::Utc::now().timestamp_millis()
}

} // verus!
