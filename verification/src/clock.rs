//! The two clocks of the gateway: the wall clock that stamps each frame, and
//! the monotonic clock that measures how long a response took.
//!
//! Nothing is claimed of what a clock returns: every function that reads one
//! states what holds whatever the reading was. The clocks are read through
//! std and the stamp is written by `chrono`; what joins them is verified.

use vstd::prelude::*;

verus! {

/// `std::time::Instant`, a reading of the monotonic clock.
#[verifier::external_type_specification]
#[verifier::external_body]
pub struct ExInstant(std::time::Instant);

/// `Instant::now` reads the monotonic clock.
pub assume_specification[ std::time::Instant::now ]() -> std::time::Instant;

/// `Instant::elapsed` gives the time that has passed since the instant.
pub assume_specification[ std::time::Instant::elapsed ](
    start: &std::time::Instant,
) -> std::time::Duration;

/// `Duration::as_millis` gives the whole milliseconds of a duration.
pub assume_specification[ std::time::Duration::as_millis ](d: &std::time::Duration) -> u128;

/// The milliseconds since `start`, reduced to 32 bits as [`low_u32`] says.
pub(crate) fn elapsed_millis(start: &std::time::Instant) -> (r: u32)
    ensures
        exists|ms: u128| r == #[trigger] low_u32(ms),
{
    let d = start.elapsed();
    reduce_millis(d.as_millis())
}

/// The low 32 bits of a number of milliseconds.
pub open spec fn low_u32(ms: u128) -> u32 {
    (ms % 0x1_0000_0000) as u32
}

/// Reduces a number of milliseconds to 32 bits: the count starts again at
/// zero every 4294967296 milliseconds.
pub fn reduce_millis(ms: u128) -> (r: u32)
    ensures
        r == low_u32(ms),
{
    (ms % 0x1_0000_0000) as u32
}

/// The stamp of a frame: the local time of the wall clock as an RFC 3339
/// text with nanoseconds. A clock that stands before 1970 is read as 1970,
/// and one that stands after the year 9999 as the end of that year.
pub(crate) fn timestamp_now() -> String {
    let now = std::time::SystemTime::now();
    let (secs, nanos) = match since_epoch(&now) {
        Ok(d) => (d.as_secs(), d.subsec_nanos()),
        Err(_) => (0, 0),
    };
    let secs: i64 = if secs > 253_402_300_799 {
        253_402_300_799
    } else {
        secs as i64
    };
    let nanos: u32 = if nanos > 999_999_999 {
        999_999_999
    } else {
        nanos
    };
    match local_rfc3339(secs, nanos) {
        Some(stamp) => stamp,
        None => String::new(),
    }
}

/// `std::time::SystemTime`, a reading of the wall clock.
#[verifier::external_type_specification]
#[verifier::external_body]
pub struct ExSystemTime(std::time::SystemTime);

/// `std::time::SystemTimeError`, what `duration_since` reports of a time
/// that lies before the other.
#[verifier::external_type_specification]
#[verifier::external_body]
pub struct ExSystemTimeError(std::time::SystemTimeError);

/// `SystemTime::now` reads the wall clock.
pub assume_specification[ std::time::SystemTime::now ]() -> std::time::SystemTime;

/// `Duration::as_secs` gives the whole seconds of a duration.
pub assume_specification[ std::time::Duration::as_secs ](d: &std::time::Duration) -> u64;

/// `Duration::subsec_nanos` gives the nanoseconds of a duration beyond its
/// whole seconds.
pub assume_specification[ std::time::Duration::subsec_nanos ](d: &std::time::Duration) -> u32;

/// Calls `SystemTime::duration_since` with `UNIX_EPOCH`: the time that has
/// passed since 1970, or the error where the time lies before it.
#[verifier::external_body]
pub(crate) fn since_epoch(now: &std::time::SystemTime) -> Result<
    std::time::Duration,
    std::time::SystemTimeError,
> {
    now.duration_since(std::time::UNIX_EPOCH)
}

/// Writes a time, given in seconds and nanoseconds since 1970, as local time
/// in RFC 3339 with nanoseconds: `chrono`'s `DateTime::from_timestamp`, then
/// `with_timezone(&Local)` and `to_rfc3339_opts`, with `Z` in place of a
/// zero offset. `None` where `chrono` holds no such time. The text depends on
/// the time zone of the machine; `chrono` panics where the zone data of the
/// machine yields no offset for the time.
#[verifier::external_body]
pub(crate) fn local_rfc3339(secs: i64, nanos: u32) -> Option<String>
    requires
        0 <= secs <= 253_402_300_799,
        nanos <= 999_999_999,
{
    match chrono::DateTime::from_timestamp(secs, nanos) {
        Some(t) => Some(
            t.with_timezone(&chrono::Local).to_rfc3339_opts(chrono::SecondsFormat::Nanos, true),
        ),
        None => None,
    }
}

} // verus!
