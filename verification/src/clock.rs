//! The wall clock.

use vstd::prelude::*;

verus! {

/// Relies on `chrono::Utc::now`: the current wall-clock time, as a Unix
/// timestamp in whole seconds. Nothing is promised of the value; callers
/// state what holds for every timestamp.
#[verifier::external_body]
pub(crate) fn current_timestamp() -> i64 {
    chrono::Utc::now().timestamp()
}

} // verus!
