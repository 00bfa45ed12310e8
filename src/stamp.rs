//! Fresh identifiers and the current instant.
use vstd::prelude::*;

verus! {

/// Relies on `uuid::Uuid::new_v4`: a random (version 4) UUID, as its 128-bit value.
#[verifier::external_body]
fn random_uuid() -> (r: u128) {
    uuid::Uuid::new_v4().as_u128()
}

/// Relies on `time::OffsetDateTime::now_utc` and `unix_timestamp_nanos`: the current
/// instant in nanoseconds since the Unix epoch, UTC; nothing is known of its value.
#[verifier::external_body]
fn utc_now_nanos() -> (r: i128) {
    time::OffsetDateTime::now_utc().unix_timestamp_nanos()
}

/// A fresh random id for a vault, a record or an outbox entry.
pub fn new_id() -> u128 {
    random_uuid()
}

/// Whole microseconds in a nanosecond count, clamped to `0..=i64::MAX` (instants before
/// the epoch are not kept).
pub open spec fn micros_of_nanos(nanos: int) -> int {
    if nanos < 0 {
        0
    } else if nanos / 1000 > i64::MAX {
        i64::MAX as int
    } else {
        nanos / 1000
    }
}

/// Converts a nanosecond instant to microseconds, the resolution the store keeps.
pub fn nanos_to_micros(nanos: i128) -> (r: i64)
    ensures
        r == micros_of_nanos(nanos as int),
{
    if nanos < 0 {
        return 0;
    }
    let m = nanos / 1000;
    if m > i64::MAX as i128 {
        i64::MAX
    } else {
        m as i64
    }
}

/// The current instant, in microseconds since the Unix epoch.
pub fn now_micros() -> i64 {
    nanos_to_micros(utc_now_nanos())
}

} // verus!
