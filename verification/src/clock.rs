//! Wall-clock access for message timestamps.

use vstd::prelude::*;

verus! {

/// Relies on `chrono::Utc::now`: returns the current moment; the result is
/// converted to seconds since the Unix epoch with `chrono::DateTime::timestamp`.
/// Nothing can be promised of the current time, so there is no contract.
#[verifier::external_body]
pub fn now_timestamp() -> i64 {
    chrono::Utc::now().timestamp()
}

} // verus!
