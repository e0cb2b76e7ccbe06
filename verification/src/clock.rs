//! The wall clock, trusted at the boundary to the `chrono` crate.

use vstd::prelude::*;

verus! {

/// Relies on `chrono::Utc::now` for the current UTC time, rendered with
/// `DateTime::to_rfc3339`. The reading depends on the clock, so nothing is
/// assumed of the result; the store keeps its own timestamps monotonic by
/// clamping against what it already holds.
#[verifier::external_body]
pub(crate) fn now_rfc3339() -> String {
    chrono::Utc::now().to_rfc3339()
}

} // verus!
