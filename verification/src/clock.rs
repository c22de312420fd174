//! The wall clock, read through `chrono`.
use vstd::prelude::*;

verus! {

/// The current time as `chrono::Utc::now()` gives it: its whole seconds since
/// the Unix epoch (`timestamp`) and the nanoseconds past them
/// (`timestamp_subsec_nanos`). Nothing is stated of the values, which are the
/// time at the call.
#[verifier::external_body]
fn now_parts() -> (t: (i64, u32)) {
    let now = chrono::Utc::now();
    (now.timestamp(), now.timestamp_subsec_nanos())
}

/// The current time in nanoseconds since the Unix epoch.
pub(crate) fn now_nanos() -> (t: i128) {
    let (secs, nanos) = now_parts();
    secs as i128 * 1_000_000_000 + nanos as i128
}

} // verus!
