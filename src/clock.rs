use vstd::prelude::*;

verus! {

/// Relies on chrono's `Utc::now().timestamp()`: the current time in Unix seconds.
/// Nothing is known of the value.
#[verifier::external_body]
pub(crate) fn unix_now() -> (r: i64) {
    chrono::Utc::now().timestamp()
}

} // verus!
