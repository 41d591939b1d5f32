//! The clocks: the time of day, and the monotonic clock that spans are
//! measured on.
use vstd::prelude::*;

verus! {

/// A time of day in UTC.
#[derive(Debug, Clone, Copy, PartialEq, Eq, Structural)]
pub struct Timestamp {
    /// Whole seconds since the first of January 1970, leap seconds not counted.
    pub secs: i64,
    /// Nanoseconds past that second.
    pub nanos: u32,
}

/// The time of day now, which `chrono::Utc::now` reads off the system clock, as
/// `timestamp` and `timestamp_subsec_nanos` express it. All that is known of the
/// result is that its nanoseconds make up less than a second. A system clock set
/// before 1970 makes `chrono::Utc::now` panic, whatever the program does.
#[verifier::external_body]
fn utc_now() -> (now: Timestamp)
    ensures
        now.nanos < 1_000_000_000,
{
    let now = chrono::Utc::now();
    Timestamp { secs: now.timestamp(), nanos: now.timestamp_subsec_nanos() }
}

/// The system clock has been read as this time of day.
pub closed spec fn is_clock_reading(at: Timestamp) -> bool {
    call_ensures(utc_now, (), at)
}

/// The time of day now.
pub fn now() -> (at: Timestamp)
    ensures
        is_clock_reading(at),
        at.nanos < 1_000_000_000,
{
    utc_now()
}

/// `std::time::Instant`, a reading of the monotonic clock.
#[verifier::external_type_specification]
#[verifier::external_body]
pub struct ExInstant(std::time::Instant);

/// How many nanoseconds a span of time holds.
pub uninterp spec fn span_nanos(span: std::time::Duration) -> nat;

/// Where a reading of the monotonic clock lies on the clock's scale, in
/// nanoseconds. The scale's origin is the machine's.
pub uninterp spec fn instant_nanos(at: std::time::Instant) -> int;

/// `Instant::now` reads the monotonic clock. Nothing is known of the result.
pub assume_specification[ std::time::Instant::now ]() -> std::time::Instant;

/// `Instant::elapsed` gives the span from a reading of the clock to now. How long
/// that is rests with the clock, so nothing is known of the result.
pub assume_specification[ std::time::Instant::elapsed ](
    since: &std::time::Instant,
) -> std::time::Duration;

/// `Instant::checked_sub` gives the reading that lies the given span earlier, if
/// the machine's clock can express it. Which readings it can express is left
/// unsaid: that differs between machines.
pub assume_specification[ std::time::Instant::checked_sub ](
    at: &std::time::Instant,
    span: std::time::Duration,
) -> (earlier: Option<std::time::Instant>)
    ensures
        earlier matches Some(t) ==> instant_nanos(t) == instant_nanos(*at) - span_nanos(span),
;

/// `Duration::as_secs` gives the whole seconds in a span.
pub assume_specification[ std::time::Duration::as_secs ](span: &std::time::Duration) -> (secs: u64)
    ensures
        secs == span_nanos(*span) / 1_000_000_000,
;

/// `Duration::as_millis` gives the whole milliseconds in a span.
pub assume_specification[ std::time::Duration::as_millis ](span: &std::time::Duration) -> (millis:
    u128)
    ensures
        millis == span_nanos(*span) / 1_000_000,
;

/// The least of a count and what a `u32` holds.
pub open spec fn clamped(count: nat) -> u32 {
    if count > u32::MAX {
        u32::MAX
    } else {
        count as u32
    }
}

/// The whole seconds in a span, at most `u32::MAX`.
pub open spec fn secs_in(span: std::time::Duration) -> u32 {
    clamped(span_nanos(span) / 1_000_000_000)
}

/// The whole milliseconds in a span, at most `u32::MAX`.
pub open spec fn millis_in(span: std::time::Duration) -> u32 {
    clamped(span_nanos(span) / 1_000_000)
}

/// `Instant::elapsed` has told the time since `at` as this many seconds.
pub open spec fn secs_told_since(at: std::time::Instant, secs: u32) -> bool {
    exists|span: std::time::Duration|
        #[trigger] call_ensures(std::time::Instant::elapsed, (&at,), span) && secs == secs_in(span)
}

/// `Instant::elapsed` has told the time since `at` as this many milliseconds.
pub open spec fn millis_told_since(at: std::time::Instant, millis: u32) -> bool {
    exists|span: std::time::Duration|
        #[trigger] call_ensures(std::time::Instant::elapsed, (&at,), span) && millis == millis_in(
            span,
        )
}

/// The whole seconds in a span, at most `u32::MAX`.
pub fn clamped_secs(span: std::time::Duration) -> (secs: u32)
    ensures
        secs == secs_in(span),
{
    let secs: u64 = span.as_secs();
    if secs > u32::MAX as u64 {
        u32::MAX
    } else {
        secs as u32
    }
}

/// The whole milliseconds in a span, at most `u32::MAX`.
pub fn clamped_millis(span: std::time::Duration) -> (millis: u32)
    ensures
        millis == millis_in(span),
{
    let millis: u128 = span.as_millis();
    if millis > u32::MAX as u128 {
        u32::MAX
    } else {
        millis as u32
    }
}

} // verus!
