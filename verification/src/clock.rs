//! The process clock. Everything else in the runtime takes the current
//! time as a plain argument and is verified for every value of it; only
//! these two readings touch the clock itself.

use vstd::prelude::*;

verus! {

/// Relies on `chrono::Local::now` and `DateTime::timestamp`: the current
/// unix second. Nothing is promised of the value: what the clock reads
/// depends on the machine and the moment.
#[verifier::external_body]
pub(crate) fn now_ts() -> (t: i64) {
    chrono::Local::now().timestamp()
}

/// Relies on `chrono::FixedOffset::local_minus_utc`: the local zone's
/// offset from UTC in seconds. A `FixedOffset` only ever holds a value
/// strictly between minus and plus one day — its constructors refuse
/// anything else — so that much holds of every outcome.
#[verifier::external_body]
pub(crate) fn local_utc_offset() -> (off: i32)
    ensures
        -86400 < off < 86400,
{
    chrono::Local::now().offset().local_minus_utc()
}

} // verus!
