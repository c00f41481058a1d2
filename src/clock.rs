use chrono::{TimeZone, Timelike};
use vstd::prelude::*;

verus! {

/// Seconds in one day.
pub const DAY_SECONDS: i128 = 86400;

/// Instants within this many seconds of the epoch lie well inside the dates
/// that the local clock can read (about 253,000 years either way).
pub const CLOCK_RANGE_SECONDS: i128 = 8_000_000_000_000;

/// The same range in milliseconds.
pub const CLOCK_RANGE_MILLIS: i128 = 8_000_000_000_000_000;

/// Relies on chrono's `Local.timestamp_opt(secs, 0)`, which is `Single` unless
/// `secs` lies outside chrono's dates (years -262,143 to 262,142), and on
/// `Timelike::{hour, minute, second}`, which give 0 to 23, 0 to 59 and 0 to
/// 59. The clock reading depends on the machine's time zone.
#[verifier::external_body]
fn local_clock(secs: i64) -> (r: Option<(u32, u32, u32)>)
    ensures
        r matches Some((h, m, s)) ==> h < 24 && m < 60 && s < 60,
        -CLOCK_RANGE_SECONDS <= secs <= CLOCK_RANGE_SECONDS ==> r is Some,
{
    match chrono::Local.timestamp_opt(secs, 0).single() {
        Some(t) => Some((t.hour(), t.minute(), t.second())),
        None => None,
    }
}

/// Seconds past midnight of a wall-clock reading.
pub open spec fn clock_seconds(h: int, m: int, s: int) -> int {
    h * 3600 + m * 60 + s
}

/// Seconds past midnight of the wall-clock reading `h:m:s`.
pub fn seconds_of_day(h: u32, m: u32, s: u32) -> (r: i128)
    requires
        h < 24,
        m < 60,
        s < 60,
    ensures
        r == clock_seconds(h as int, m as int, s as int),
        0 <= r < DAY_SECONDS,
{
    (h as i128) * 3600 + (m as i128) * 60 + (s as i128)
}

/// Largest magnitude of a millisecond instant whose second fits an `i64`.
pub const MILLIS_LIMIT: i128 = 9_223_372_036_854_775_807_999;

/// Whole seconds of `ms` milliseconds, cut toward zero.
pub open spec fn whole_seconds(ms: int) -> int {
    if ms >= 0 {
        ms / 1000
    } else {
        -((-ms) / 1000)
    }
}

/// The whole seconds of an instant given in epoch milliseconds, cut toward
/// zero: what the local clock is asked to read.
pub fn epoch_seconds(timestamp: i128) -> (s: i64)
    requires
        -MILLIS_LIMIT <= timestamp <= MILLIS_LIMIT,
    ensures
        s == whole_seconds(timestamp as int),
{
    let secs = if timestamp >= 0 {
        timestamp / 1000
    } else {
        -((-timestamp) / 1000)
    };
    secs as i64
}

/// The local time of day of an instant given in epoch milliseconds, as
/// seconds past local midnight. An instant that the time zone cannot place
/// is an error; one within the clock's range always is placed. The clock
/// reads the instant's `epoch_seconds`.
pub fn timestamp_to_time(timestamp: i128) -> (r: Result<i128, crate::BuildError>)
    ensures
        match r {
            Ok(t) => 0 <= t < DAY_SECONDS,
            Err(e) => e == crate::BuildError::LocalTime,
        },
        -CLOCK_RANGE_MILLIS <= timestamp <= CLOCK_RANGE_MILLIS ==> r is Ok,
        (timestamp > MILLIS_LIMIT || timestamp < -MILLIS_LIMIT) ==> r is Err,
{
    if timestamp > MILLIS_LIMIT || timestamp < -MILLIS_LIMIT {
        return Err(crate::BuildError::LocalTime);
    }
    let secs = epoch_seconds(timestamp);
    assert(-CLOCK_RANGE_MILLIS <= timestamp <= CLOCK_RANGE_MILLIS ==> -CLOCK_RANGE_SECONDS <= secs
        <= CLOCK_RANGE_SECONDS);
    match local_clock(secs) {
        Some((h, m, s)) => Ok(seconds_of_day(h, m, s)),
        None => Err(crate::BuildError::LocalTime),
    }
}

} // verus!
