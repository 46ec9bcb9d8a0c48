//! Wall-clock reads. The clock is the one outside input the identifier
//! generator and session bookkeeping depend on; nothing is assumed of
//! its values, so every caller must cope with a clock that regresses,
//! jumps or stands still.

use vstd::prelude::*;

use crate::snowflake;

verus! {

/// Relies on chrono::Utc::now: the current wall-clock time in
/// milliseconds since the UNIX epoch. Nothing is assumed of the value.
/// The collaborator itself aborts on a system clock set before the
/// epoch; that abort happens inside the call, so no guard here can
/// catch it.
#[verifier::external_body]
pub fn now_unix_millis() -> i64 {
    chrono::Utc::now().timestamp_millis()
}

/// Relies on chrono::Utc::now: the current wall-clock time in whole
/// seconds since the UNIX epoch. Nothing is assumed of the value, and
/// the same pre-epoch caveat applies.
#[verifier::external_body]
pub fn now_unix_seconds() -> i64 {
    chrono::Utc::now().timestamp()
}

/// The current time in milliseconds, clamped into the range an
/// identifier's timestamp field can hold.
pub fn now_millis_for_ids() -> (t: u64)
    ensures
        t < snowflake::TIMESTAMP_LIMIT,
{
    let ms = now_unix_millis();
    if ms < 0 {
        0
    } else if ms >= snowflake::TIMESTAMP_LIMIT as i64 {
        snowflake::TIMESTAMP_LIMIT - 1
    } else {
        ms as u64
    }
}

} // verus!
