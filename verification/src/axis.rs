//! Time-axis tick labels. The choice of label shape is verified logic: a
//! calendar date when the visible span exceeds one day, hour:minute when it
//! exceeds one hour, else hour:minute:second. The clock renderings are
//! verified Euclidean arithmetic on the instant; only the calendar-date
//! rendering is chrono's, behind a trusted wrapper.

use vstd::prelude::*;
use vstd::arithmetic::div_mod::lemma_mod_bound;
use vstd::string::StringExecFns;
use crate::chart::timestamp_in_range;
use crate::text::{digit_char_of, digit_str};

verus! {

pub const DAY_MS: i64 = 86_400_000;

pub const HOUR_MS: i64 = 3_600_000;

/// Second of the day an instant falls in, UTC: the POSIX timeline has no
/// leap seconds, so this is plain Euclidean arithmetic on milliseconds.
pub open spec fn second_of_day(ms: int) -> int {
    (ms / 1000) % 86400
}

pub open spec fn hour_of(ms: int) -> int {
    second_of_day(ms) / 3600
}

pub open spec fn minute_of(ms: int) -> int {
    (second_of_day(ms) / 60) % 60
}

pub open spec fn second_of(ms: int) -> int {
    second_of_day(ms) % 60
}

/// A zero-padded two-digit field.
pub open spec fn two_digits(n: int) -> Seq<char> {
    seq![digit_char_of(n / 10), digit_char_of(n % 10)]
}

/// The `%H:%M` rendering, UTC, of an instant in epoch milliseconds.
pub open spec fn hour_minute_label_of(ms: int) -> Seq<char> {
    two_digits(hour_of(ms)) + seq![':'] + two_digits(minute_of(ms))
}

/// The `%H:%M:%S` rendering, UTC, of an instant in epoch milliseconds.
pub open spec fn hour_minute_second_label_of(ms: int) -> Seq<char> {
    hour_minute_label_of(ms) + seq![':'] + two_digits(second_of(ms))
}

/// The `%Y-%m-%d` rendering, UTC, of an instant in epoch milliseconds.
pub uninterp spec fn date_label_of(ms: int) -> Seq<char>;

/// Relies on chrono: `DateTime::<Utc>::from_timestamp_millis` is `Some` for
/// every in-range instant, and formatting it with the fixed specifier
/// `%Y-%m-%d` depends on the instant alone.
#[verifier::external_body]
fn date_label(ms: i64) -> (r: String)
    requires
        timestamp_in_range(ms as int),
    ensures
        r@ == date_label_of(ms as int),
{
    match chrono::DateTime::<chrono::Utc>::from_timestamp_millis(ms) {
        Some(dt) => dt.format("%Y-%m-%d").to_string(),
        None => String::new(),
    }
}

/// The in-range second of the day, hour, minute and second of an instant.
fn clock_fields(ms: i64) -> (r: (u64, u64, u64))
    requires
        timestamp_in_range(ms as int),
    ensures
        r.0 == hour_of(ms as int),
        r.1 == minute_of(ms as int),
        r.2 == second_of(ms as int),
        r.0 < 24 && r.1 < 60 && r.2 < 60,
{
    let secs: i64 = match ms.checked_div_euclid(1000) {
        Some(v) => v,
        None => 0,
    };
    let sod: i64 = match secs.checked_rem_euclid(86400) {
        Some(v) => v,
        None => 0,
    };
    proof {
        lemma_mod_bound(secs as int, 86400);
    }
    let sod_u: u64 = sod as u64;
    let hour = sod_u / 3600;
    let minute = (sod_u / 60) % 60;
    let second = sod_u % 60;
    (hour, minute, second)
}

/// The `HH:MM` clock label of an instant, UTC.
fn hour_minute_label(ms: i64) -> (r: String)
    requires
        timestamp_in_range(ms as int),
    ensures
        r@ == hour_minute_label_of(ms as int),
{
    let (hour, minute, _) = clock_fields(ms);
    let mut out = String::new();
    out.append(digit_str(hour / 10));
    out.append(digit_str(hour % 10));
    out.append(":");
    out.append(digit_str(minute / 10));
    out.append(digit_str(minute % 10));
    proof {
        reveal_strlit(":");
        assert(out@ =~= hour_minute_label_of(ms as int));
    }
    out
}

/// The `HH:MM:SS` clock label of an instant, UTC.
fn hour_minute_second_label(ms: i64) -> (r: String)
    requires
        timestamp_in_range(ms as int),
    ensures
        r@ == hour_minute_second_label_of(ms as int),
{
    let (hour, minute, second) = clock_fields(ms);
    let mut out = String::new();
    out.append(digit_str(hour / 10));
    out.append(digit_str(hour % 10));
    out.append(":");
    out.append(digit_str(minute / 10));
    out.append(digit_str(minute % 10));
    out.append(":");
    out.append(digit_str(second / 10));
    out.append(digit_str(second % 10));
    proof {
        reveal_strlit(":");
        assert(out@ =~= hour_minute_second_label_of(ms as int));
    }
    out
}

/// The magnitude of the visible span.
pub open spec fn spec_span_ms(range_start_ms: int, range_end_ms: int) -> int {
    if range_end_ms >= range_start_ms {
        range_end_ms - range_start_ms
    } else {
        range_start_ms - range_end_ms
    }
}

/// Which label a tick gets: a date over more than a day of visible span,
/// hour:minute over more than an hour, else hour:minute:second.
pub open spec fn spec_axis_label(mark_ms: int, range_start_ms: int, range_end_ms: int) -> Seq<
    char,
> {
    let span = spec_span_ms(range_start_ms, range_end_ms);
    if span > DAY_MS {
        date_label_of(mark_ms)
    } else if span > HOUR_MS {
        hour_minute_label_of(mark_ms)
    } else {
        hour_minute_second_label_of(mark_ms)
    }
}

/// Formats one tick of the time axis: the mark's calendar date when the
/// visible range spans more than a day, its hour and minute when it spans
/// more than an hour, else its hour, minute and second.
pub fn format_time_axis(mark_ms: i64, range_start_ms: i64, range_end_ms: i64) -> (r: String)
    requires
        timestamp_in_range(mark_ms as int),
        timestamp_in_range(range_start_ms as int),
        timestamp_in_range(range_end_ms as int),
    ensures
        r@ == spec_axis_label(mark_ms as int, range_start_ms as int, range_end_ms as int),
{
    let span = if range_end_ms >= range_start_ms {
        range_end_ms - range_start_ms
    } else {
        range_start_ms - range_end_ms
    };
    if span > DAY_MS {
        date_label(mark_ms)
    } else if span > HOUR_MS {
        hour_minute_label(mark_ms)
    } else {
        hour_minute_second_label(mark_ms)
    }
}

} // verus!
