//! Moments and spans in nanoseconds.
//!
//! A moment counts nanoseconds on one monotonic clock of the host; a span
//! counts nanoseconds. A clock cannot express moments past its own limit.

use vstd::prelude::*;

verus! {

pub const NANOS_PER_MILLI: u128 = 1_000_000;

pub const NANOS_PER_SECOND: u128 = 1_000_000_000;

/// The longest span that the host's duration type holds.
pub const MAX_SPAN: u128 = 18_446_744_073_709_551_615_999_999_999;

/// The moment a span after a start, where a clock with this limit can express
/// it.
pub open spec fn moment_after(start: u128, span: u128, limit: u128) -> Option<u128> {
    if start + span <= limit {
        Some((start + span) as u128)
    } else {
        None
    }
}

pub fn checked_after(start: u128, span: u128, limit: u128) -> (moment: Option<u128>)
    ensures
        moment == moment_after(start, span, limit),
{
    match start.checked_add(span) {
        Some(moment) if moment <= limit => Some(moment),
        _ => None,
    }
}

pub open spec fn earlier(left: u128, right: u128) -> u128 {
    if left <= right {
        left
    } else {
        right
    }
}

pub fn earlier_of(left: u128, right: u128) -> (moment: u128)
    ensures
        moment == earlier(left, right),
{
    if left <= right {
        left
    } else {
        right
    }
}

/// The host's monotonic clock reading, of which nothing is known here.
#[verifier::external_type_specification]
#[verifier::external_body]
pub struct ExInstant(std::time::Instant);

/// `Instant::now`. Nothing is claimed of the reading: it depends on the host.
pub assume_specification[ std::time::Instant::now ]() -> (now: std::time::Instant)
;

/// `Instant::checked_add` with the span of these seconds and nanoseconds: the
/// moment that far after the start, where the clock can express it. Which later
/// moments a clock can express depends on the host, and nothing is claimed of
/// them; the start itself it expresses.
#[verifier::external_body]
fn instant_after(start: &std::time::Instant, seconds: u64, nanos: u32) -> (moment: Option<
    std::time::Instant,
>)
    requires
        nanos < 1_000_000_000,
    ensures
        seconds == 0 && nanos == 0 ==> moment is Some,
{
    start.checked_add(std::time::Duration::new(seconds, nanos))
}

/// The whole seconds of a span, and the nanoseconds past them.
fn span_parts(span: u128) -> (parts: (u64, u32))
    requires
        span <= MAX_SPAN,
    ensures
        parts.0 * NANOS_PER_SECOND + parts.1 == span,
        parts.1 < NANOS_PER_SECOND,
{
    ((span / NANOS_PER_SECOND) as u64, (span % NANOS_PER_SECOND) as u32)
}

/// Ask the clock, and keep hold of what it answered.
fn ask_clock<F: Fn(&std::time::Instant, u64, u32) -> Option<std::time::Instant>>(
    clock: F,
    start: &std::time::Instant,
    seconds: u64,
    nanos: u32,
) -> (moment: Option<std::time::Instant>)
    requires
        call_requires(clock, (start, seconds, nanos)),
    ensures
        call_ensures(clock, (start, seconds, nanos), moment),
{
    clock(start, seconds, nanos)
}

/// Whether the host clock itself was asked about exactly this span, and
/// answered so. Nothing but such an answer makes this true.
pub closed spec fn clock_answered(span: u128, fits: bool) -> bool {
    exists|start: std::time::Instant, seconds: u64, nanos: u32, moment: Option<std::time::Instant>|
        #[trigger] call_ensures(instant_after, (&start, seconds, nanos), moment) && seconds
            * NANOS_PER_SECOND + nanos == span && nanos < NANOS_PER_SECOND && fits
            == moment is Some
}

/// Whether the host clock itself was asked about exactly this span, and had no
/// moment for it.
pub closed spec fn clock_refused(span: u128) -> bool {
    exists|start: std::time::Instant, seconds: u64, nanos: u32|
        #[trigger] call_ensures(
            instant_after,
            (&start, seconds, nanos),
            None::<std::time::Instant>,
        ) && seconds * NANOS_PER_SECOND + nanos == span
}

/// Only the host clock refuses a span: whatever its length, there is no answer
/// against it without the clock itself having had no moment for it. A span of
/// nothing is never refused.
pub proof fn law_only_the_clock_refuses_a_span(span: u128, fits: bool)
    requires
        clock_answered(span, fits),
    ensures
        !fits ==> clock_refused(span),
        span == 0 ==> fits,
{
    let (start, seconds, nanos, moment) = choose|
        start: std::time::Instant,
        seconds: u64,
        nanos: u32,
        moment: Option<std::time::Instant>,
    |
        #[trigger] call_ensures(instant_after, (&start, seconds, nanos), moment) && seconds
            * NANOS_PER_SECOND + nanos == span && nanos < NANOS_PER_SECOND && fits
            == moment is Some;
    if !fits {
        assert(moment == None::<std::time::Instant>);
    }
    if span == 0 {
        assert(seconds == 0 && nanos == 0) by (nonlinear_arith)
            requires
                seconds * NANOS_PER_SECOND + nanos == 0,
                NANOS_PER_SECOND == 1_000_000_000u128,
        ;
    }
}

/// Whether a deadline this far ahead can be expressed now. A deadline that is
/// due at once always can, and no clock is asked about a span beyond the longest
/// one. For the spans between, the answer is the clock's own; what a clock
/// answers is not stated.
pub fn deadline_is_representable(span: u128) -> (fits: bool)
    ensures
        span == 0 ==> fits,
        span > MAX_SPAN ==> !fits,
        span <= MAX_SPAN ==> clock_answered(span, fits),
{
    if span > MAX_SPAN {
        return false;
    }
    let (seconds, nanos): (u64, u32) = span_parts(span);
    let start = std::time::Instant::now();
    let moment = ask_clock(instant_after, &start, seconds, nanos);
    assert(call_ensures(instant_after, (&start, seconds, nanos), moment));
    moment.is_some()
}

/// A moment that a clock can express is exactly as far behind the start as the
/// span, and none is left out that is within the limit.
pub proof fn law_moments_add_up(start: u128, span: u128, limit: u128)
    ensures
        moment_after(start, span, limit) is Some <==> start + span <= limit,
        moment_after(start, span, limit) matches Some(moment) ==> moment == start + span,
        earlier(start, span) <= start && earlier(start, span) <= span,
        earlier(start, span) == start || earlier(start, span) == span,
{
}

/// The longest span is as many whole seconds as 64 bits count, and all but one
/// nanosecond of another.
pub proof fn law_the_longest_span()
    ensures
        MAX_SPAN == u64::MAX * 1_000_000_000 + 999_999_999,
        NANOS_PER_SECOND == 1_000_000_000,
        NANOS_PER_MILLI == 1_000_000,
{
}

} // verus!
