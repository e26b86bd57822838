//! The one place the engine reads the system clock.

use vstd::prelude::*;

verus! {

/// Relies on chrono's `Utc::now` and `DateTime::timestamp`: reads the system
/// clock as whole seconds since the Unix epoch. The result depends on the
/// clock alone, so nothing is promised of it; whatever the engine concludes
/// from a reading it concludes for every possible reading.
#[verifier::external_body]
pub(crate) fn now_seconds() -> i64 {
    chrono::Utc::now().timestamp()
}

} // verus!
