//! The wall clock.

use vstd::prelude::*;

verus! {

/// Reads `chrono::Utc::now` and keeps its whole seconds since the Unix
/// epoch. Two readings may differ, so nothing is claimed about the value.
/// `chrono` gives up on a system clock that is set before 1970.
#[verifier::external_body]
pub(crate) fn now() -> (seconds: i64) {
    chrono::Utc::now().timestamp()
}

} // verus!
