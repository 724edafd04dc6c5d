//! Instants and spans in milliseconds.
use vstd::prelude::*;

verus! {

/// An instant: milliseconds since the Unix epoch, UTC.
pub type Timestamp = i64;

/// A span of time in milliseconds; negative spans point into the past.
pub type Millis = i64;

/// `chrono::Utc::now` read as milliseconds since the epoch. Nothing is promised of the
/// value: two calls may give any two instants.
#[verifier::external_body]
pub(crate) fn now_millis() -> (now: Timestamp) {
    chrono::Utc::now().timestamp_millis()
}

/// `std::time::Instant`: a reading of a clock that never runs backwards. Nothing can be
/// seen in it; it is kept to measure from.
#[verifier::external_type_specification]
#[verifier::external_body]
pub struct ExInstant(std::time::Instant);

/// `std::time::Instant::now`: a reading of the clock that never runs backwards. Nothing
/// is promised of it.
#[verifier::external_body]
pub(crate) fn clock_reading() -> (at: std::time::Instant) {
    std::time::Instant::now()
}

/// `std::time::Instant::elapsed`: the milliseconds that have gone by since a reading of
/// the clock. Nothing is promised of their number.
#[verifier::external_body]
pub(crate) fn millis_since(start: &std::time::Instant) -> (ms: u64) {
    u64::try_from(start.elapsed().as_millis()).unwrap_or(u64::MAX)
}

/// Whether `chrono` can hold an instant: it lies between the first millisecond of the
/// year -262143 and the last millisecond of the year 262142.
pub open spec fn chrono_holds(at: Timestamp) -> bool {
    -8_334_601_228_800_000 <= at <= 8_210_266_876_799_999
}

/// `chrono::DateTime::from_timestamp_millis`: whether the instant is within the range of
/// dates that `chrono` holds.
#[verifier::external_body]
pub(crate) fn instant_in_range(at: Timestamp) -> (held: bool)
    ensures
        held == chrono_holds(at),
{
    chrono::DateTime::from_timestamp_millis(at).is_some()
}

/// `x` brought into the range of `i64`.
pub open spec fn clamp(x: int) -> int {
    if x < i64::MIN {
        i64::MIN as int
    } else if x > i64::MAX {
        i64::MAX as int
    } else {
        x
    }
}

/// The instant `span` after `at`, held at the ends of the representable range.
pub open spec fn shifted(at: int, span: int) -> int {
    clamp(at + span)
}

/// Whole seconds of an instant or span, rounded towards negative infinity.
pub open spec fn whole_seconds(ms: int) -> int {
    ms / 1000
}

/// `at + span`, saturating at the ends of the range.
pub fn after(at: Timestamp, span: Millis) -> (r: Timestamp)
    ensures
        r == shifted(at as int, span as int),
{
    match at.checked_add(span) {
        Some(sum) => sum,
        None => if span > 0 { i64::MAX } else { i64::MIN },
    }
}

/// `at - span`, saturating at the ends of the range.
pub fn before(at: Timestamp, span: Millis) -> (r: Timestamp)
    ensures
        r == clamp(at - span),
{
    match at.checked_sub(span) {
        Some(difference) => difference,
        None => if span > 0 { i64::MIN } else { i64::MAX },
    }
}

/// `count * unit` milliseconds, saturating at the ends of the range.
fn scaled(count: i64, unit: i64) -> (r: Millis)
    requires
        unit > 0,
    ensures
        r == clamp(count * unit),
{
    match count.checked_mul(unit) {
        Some(product) => product,
        None => {
            assert(count > 0 ==> count * unit > 0) by (nonlinear_arith)
                requires unit > 0;
            assert(count < 0 ==> count * unit < 0) by (nonlinear_arith)
                requires unit > 0;
            if count > 0 { i64::MAX } else { i64::MIN }
        },
    }
}

/// A span of `count` seconds.
pub fn seconds(count: i64) -> (r: Millis)
    ensures
        r == clamp(count * 1000),
{
    scaled(count, 1000)
}

/// A span of `count` minutes.
pub fn minutes(count: i64) -> (r: Millis)
    ensures
        r == clamp(count * 60_000),
{
    scaled(count, 60_000)
}

/// A span of `count` hours.
pub fn hours(count: i64) -> (r: Millis)
    ensures
        r == clamp(count * 3_600_000),
{
    scaled(count, 3_600_000)
}

/// A span of `count` seconds, for a count that is never negative.
pub fn span_of_seconds(count: u64) -> (r: Millis)
    ensures
        r == clamp(count * 1000),
{
    if count > 9_223_372_036_854_775 {
        i64::MAX
    } else {
        (count * 1000) as i64
    }
}

/// Whole seconds of `ms`, rounded towards negative infinity.
pub fn to_seconds(ms: i64) -> (r: i64)
    ensures
        r == whole_seconds(ms as int),
{
    if ms >= 0 {
        ms / 1000
    } else {
        let q: i64 = ms / 1000;
        let rem: i64 = ms % 1000;
        if rem == 0 { q } else { q - 1 }
    }
}

} // verus!
