//! Points in time as the scanner compares them: signed nanoseconds relative to
//! the Unix epoch, with millisecond conversions used by scan checkpoints.
use vstd::prelude::*;

verus! {

/// A point in time: nanoseconds after (positive) or before (negative) the Unix epoch.
#[derive(Debug, Clone, Copy, PartialEq, Eq)]
pub struct SystemTime {
    pub nanos_since_epoch: i128,
}


/// Nanoseconds in a millisecond.
pub const NANOS_PER_MILLI: i128 = 1_000_000;

/// The time `ms` milliseconds after the epoch; the epoch itself for `ms <= 0`.
pub open spec fn from_ms_spec(ms: i64) -> SystemTime {
    SystemTime { nanos_since_epoch: if ms <= 0 { 0 } else { (ms * 1_000_000) as i128 } }
}

/// Whole milliseconds since the epoch, truncated to `i64` as `as` does; 0 before the epoch.
pub open spec fn to_ms_spec(t: SystemTime) -> i64 {
    if t.nanos_since_epoch < 0 { 0 } else { (t.nanos_since_epoch / 1_000_000) as i64 }
}

/// The time `ms` milliseconds after the epoch; the epoch itself for `ms <= 0`.
pub fn system_time_from_ms(ms: i64) -> (r: SystemTime)
    ensures
        r == from_ms_spec(ms),
{
    if ms <= 0 {
        return SystemTime { nanos_since_epoch: 0 };
    }
    let n = (ms as i128) * NANOS_PER_MILLI;
    SystemTime { nanos_since_epoch: n }
}

/// Whole milliseconds since the epoch; 0 for times before the epoch.
pub fn system_time_to_ms(t: SystemTime) -> (r: i64)
    ensures
        r == to_ms_spec(t),
{
    if t.nanos_since_epoch < 0 {
        return 0;
    }
    let millis = t.nanos_since_epoch / NANOS_PER_MILLI;
    millis as i64
}

/// Every non-negative millisecond timestamp survives the round trip through a time.
pub proof fn lemma_ms_roundtrip(ms: i64)
    requires
        ms >= 0,
    ensures
        to_ms_spec(from_ms_spec(ms)) == ms,
{
    if ms > 0 {
        assert((ms * 1_000_000) / 1_000_000 == ms as int) by (nonlinear_arith);
    }
}

/// `a` is strictly later than `b`.
pub open spec fn later(a: SystemTime, b: SystemTime) -> bool {
    a.nanos_since_epoch > b.nanos_since_epoch
}

/// The instant an RFC 3339 text names, in milliseconds since the epoch, as
/// `chrono::DateTime::parse_from_rfc3339` and `timestamp_millis` read it; none
/// when the text is not RFC 3339.
pub uninterp spec fn rfc3339_millis(text: Seq<char>) -> Option<i64>;

/// Parses an RFC 3339 time with `chrono::DateTime::parse_from_rfc3339`,
/// giving its instant in milliseconds since the epoch (`timestamp_millis`),
/// or none when the text does not parse; the result depends on the text alone.
#[verifier::external_body]
pub fn parse_rfc3339(text: &str) -> (r: Option<i64>)
    ensures
        r == rfc3339_millis(text@),
{
    chrono::DateTime::parse_from_rfc3339(text).ok().map(|t| t.timestamp_millis())
}

/// `x` kept within the range of `i64`.
pub open spec fn clamp_i64(x: int) -> i64 {
    if x < i64::MIN { i64::MIN } else if x > i64::MAX { i64::MAX } else { x as i64 }
}

/// Milliseconds from a parsed time to `now_ms`: 0 when there is no parsed
/// time, otherwise the difference, kept within the range of `i64`.
pub open spec fn elapsed_spec(now_ms: i64, parsed: Option<i64>) -> i64 {
    match parsed {
        None => 0,
        Some(t) => clamp_i64(now_ms - t),
    }
}

/// Milliseconds elapsed since a parsed time (0 when the time did not parse).
pub fn elapsed_from(now_ms: i64, parsed: Option<i64>) -> (r: i64)
    ensures
        r == elapsed_spec(now_ms, parsed),
{
    match parsed {
        None => 0,
        Some(t) => {
            let d = (now_ms as i128) - (t as i128);
            if d < i64::MIN as i128 {
                i64::MIN
            } else if d > i64::MAX as i128 {
                i64::MAX
            } else {
                d as i64
            }
        }
    }
}

/// Milliseconds elapsed at `now_ms` since the time an RFC 3339 text names
/// (0 when it does not parse).
pub fn elapsed_since_text(now_ms: i64, text: &str) -> (r: i64)
    ensures
        r == elapsed_spec(now_ms, rfc3339_millis(text@)),
{
    elapsed_from(now_ms, parse_rfc3339(text))
}

} // verus!
