//! Pure chart aggregation: turns a snapshot of samples into renderable
//! primitives. Line points and volume bars pair a timestamp with a value;
//! candle boxes carry the OHLC spread and a direction color; bar and whisker
//! widths are derived from the estimated time step so that candle spacing
//! follows the actual sample density.
//!
//! Widths are returned in thousandths of a millisecond, so that the 0.6 and
//! 0.4 factors stay exact in integer arithmetic.

use vstd::prelude::*;
use vstd::arithmetic::div_mod::{lemma_div_is_ordered, lemma_div_multiples_vanish};
use crate::series::Sample;

verus! {

/// Fallback time step (one minute) when fewer than two samples exist or no
/// positive timestamp delta is found.
pub const DEFAULT_STEP_MS: i64 = 60_000;

/// Largest timestamp magnitude, in milliseconds, that the aggregator
/// accepts; it keeps every delta, sum and width below the integer limits.
/// (About 126,000 years on either side of the epoch.)
pub const MAX_TIMESTAMP_MS: i64 = 4_000_000_000_000_000;

/// Largest possible gap between two in-range timestamps.
pub const MAX_GAP_MS: i64 = 8_000_000_000_000_000;

pub open spec fn timestamp_in_range(ms: int) -> bool {
    -MAX_TIMESTAMP_MS <= ms <= MAX_TIMESTAMP_MS
}

pub open spec fn samples_in_range(s: Seq<Sample>) -> bool {
    forall|i: int| 0 <= i < s.len() ==> timestamp_in_range((#[trigger] s[i]).timestamp_ms as int)
}

/// The signed timestamp delta from one sample to the next.
pub open spec fn delta_ms(a: Sample, b: Sample) -> int {
    b.timestamp_ms - a.timestamp_ms
}

/// Sum of the positive consecutive deltas; ties and backward
/// (out-of-order) pairs contribute nothing.
pub open spec fn pos_gap_sum(s: Seq<Sample>) -> int
    decreases s.len(),
{
    if s.len() < 2 {
        0
    } else {
        pos_gap_sum(s.drop_last()) + if delta_ms(s[s.len() - 2], s[s.len() - 1]) > 0 {
            delta_ms(s[s.len() - 2], s[s.len() - 1])
        } else {
            0
        }
    }
}

/// How many consecutive deltas are positive.
pub open spec fn pos_gap_count(s: Seq<Sample>) -> int
    decreases s.len(),
{
    if s.len() < 2 {
        0
    } else {
        pos_gap_count(s.drop_last()) + if delta_ms(s[s.len() - 2], s[s.len() - 1]) > 0 {
            1int
        } else {
            0int
        }
    }
}

/// The estimated time step: the mean of the positive consecutive deltas
/// (zero and backward deltas excluded), clamped to at least one
/// millisecond, or the default fallback when fewer than two samples or no
/// positive delta exist.
pub open spec fn spec_time_step(s: Seq<Sample>) -> int {
    if s.len() < 2 {
        DEFAULT_STEP_MS as int
    } else if pos_gap_count(s) == 0 {
        DEFAULT_STEP_MS as int
    } else {
        let m = pos_gap_sum(s) / pos_gap_count(s);
        if m < 1 {
            1
        } else {
            m
        }
    }
}

/// Checks that every timestamp is within the range the aggregator accepts,
/// so that a caller can establish the precondition of the geometry
/// functions.
pub fn timestamps_in_range(samples: &Vec<Sample>) -> (r: bool)
    ensures
        r == samples_in_range(samples@),
{
    let mut i: usize = 0;
    while i < samples.len()
        invariant
            0 <= i <= samples@.len(),
            forall|k: int|
                0 <= k < i ==> timestamp_in_range((#[trigger] samples@[k]).timestamp_ms as int),
        decreases samples@.len() - i,
    {
        let ts = samples[i].timestamp_ms;
        if ts < -MAX_TIMESTAMP_MS || ts > MAX_TIMESTAMP_MS {
            return false;
        }
        i = i + 1;
    }
    true
}

proof fn lemma_prefix_gap_step(s: Seq<Sample>, i: int)
    requires
        1 <= i < s.len(),
    ensures
        pos_gap_sum(s.subrange(0, i + 1)) == pos_gap_sum(s.subrange(0, i)) + if delta_ms(
            s[i - 1],
            s[i],
        ) > 0 {
            delta_ms(s[i - 1], s[i])
        } else {
            0
        },
        pos_gap_count(s.subrange(0, i + 1)) == pos_gap_count(s.subrange(0, i)) + if delta_ms(
            s[i - 1],
            s[i],
        ) > 0 {
            1int
        } else {
            0int
        },
{
    let p = s.subrange(0, i + 1);
    assert(p.drop_last() =~= s.subrange(0, i));
    assert(p[p.len() - 2] == s[i - 1]);
    assert(p[p.len() - 1] == s[i]);
}

/// Mean of the positive consecutive timestamp deltas, in milliseconds,
/// clamped to at least 1; the default fallback over fewer than two samples
/// or when no delta is positive.
pub fn estimate_time_step(samples: &Vec<Sample>) -> (r: i64)
    requires
        samples_in_range(samples@),
    ensures
        r == spec_time_step(samples@),
        1 <= r <= MAX_GAP_MS,
{
    if samples.len() < 2 {
        return DEFAULT_STEP_MS;
    }
    let mut total: u128 = 0;
    let mut count: u128 = 0;
    let mut i: usize = 1;
    while i < samples.len()
        invariant
            1 <= i <= samples@.len(),
            2 <= samples@.len(),
            samples_in_range(samples@),
            total == pos_gap_sum(samples@.subrange(0, i as int)),
            count == pos_gap_count(samples@.subrange(0, i as int)),
            count < i,
            count <= total <= count * (MAX_GAP_MS as int),
        decreases samples@.len() - i,
    {
        let prev = samples[i - 1].timestamp_ms;
        let cur = samples[i].timestamp_ms;
        let gap: i64 = cur - prev;
        proof {
            lemma_prefix_gap_step(samples@, i as int);
        }
        if gap > 0 {
            total = total + gap as u128;
            count = count + 1;
        }
        i = i + 1;
    }
    proof {
        assert(samples@.subrange(0, samples@.len() as int) =~= samples@);
    }
    if count == 0 {
        DEFAULT_STEP_MS
    } else {
        let m: u128 = total / count;
        proof {
            lemma_div_is_ordered(total as int, count * (MAX_GAP_MS as int), count as int);
            lemma_div_multiples_vanish(MAX_GAP_MS as int, count as int);
            lemma_div_is_ordered(count as int, total as int, count as int);
            assert(count as int / count as int == 1) by {
                lemma_div_multiples_vanish(1, count as int);
            }
        }
        let r: i64 = m as i64;
        if r < 1 {
            1
        } else {
            r
        }
    }
}

/// Width, in thousandths of a millisecond, of a candle body or a volume
/// bar: 0.6 times the estimated step, at least one millisecond.
pub open spec fn spec_bar_width_milli(step_ms: int) -> int {
    let w = 600 * step_ms;
    if w < 1000 {
        1000
    } else {
        w
    }
}

/// Whisker width, in thousandths of a millisecond: 0.4 times the candle
/// body width, at least one millisecond.
pub open spec fn spec_whisker_width_milli(step_ms: int) -> int {
    let w = (2 * spec_bar_width_milli(step_ms)) / 5;
    if w < 1000 {
        1000
    } else {
        w
    }
}

/// 0.6 times the estimated step, clamped to a millisecond, in thousandths
/// of a millisecond.
pub fn bar_width_milli(step_ms: i64) -> (r: i64)
    requires
        1 <= step_ms <= MAX_GAP_MS,
    ensures
        r == spec_bar_width_milli(step_ms as int),
        1000 <= r,
{
    let w = 600 * step_ms;
    if w < 1000 {
        1000
    } else {
        w
    }
}

/// 0.4 times the candle body width, clamped to a millisecond, in
/// thousandths of a millisecond.
pub fn whisker_width_milli(step_ms: i64) -> (r: i64)
    requires
        1 <= step_ms <= MAX_GAP_MS,
    ensures
        r == spec_whisker_width_milli(step_ms as int),
        1000 <= r,
{
    let w = 240 * step_ms;
    proof {
        let b = spec_bar_width_milli(step_ms as int);
        if 600 * step_ms >= 1000 {
            assert(2 * b == 5 * (240 * step_ms as int));
            lemma_div_multiples_vanish(240 * step_ms as int, 5);
        } else {
            assert(step_ms == 1);
            assert(spec_bar_width_milli(1) == 1000);
            assert((2 * 1000int) / 5 == 400);
        }
    }
    if w < 1000 {
        1000
    } else {
        w
    }
}

/// Line series geometry: one `(timestamp, close)` point per sample, in
/// sequence order.
pub fn line_points(samples: &Vec<Sample>) -> (r: Vec<(i64, i64)>)
    ensures
        r@.len() == samples@.len(),
        forall|i: int|
            0 <= i < samples@.len() ==> r@[i] == (
                (#[trigger] samples@[i]).timestamp_ms,
                samples@[i].close,
            ),
{
    let mut r: Vec<(i64, i64)> = Vec::new();
    let mut i: usize = 0;
    while i < samples.len()
        invariant
            0 <= i <= samples@.len(),
            r@.len() == i,
            forall|k: int|
                0 <= k < i ==> r@[k] == (
                    (#[trigger] samples@[k]).timestamp_ms,
                    samples@[k].close,
                ),
        decreases samples@.len() - i,
    {
        r.push((samples[i].timestamp_ms, samples[i].close));
        i = i + 1;
    }
    r
}

/// Volume bar geometry: one `(timestamp, volume)` bar per sample, in
/// sequence order; the caller pairs it with [`bar_width_milli`].
pub fn volume_bars(samples: &Vec<Sample>) -> (r: Vec<(i64, u64)>)
    ensures
        r@.len() == samples@.len(),
        forall|i: int|
            0 <= i < samples@.len() ==> r@[i] == (
                (#[trigger] samples@[i]).timestamp_ms,
                samples@[i].volume,
            ),
{
    let mut r: Vec<(i64, u64)> = Vec::new();
    let mut i: usize = 0;
    while i < samples.len()
        invariant
            0 <= i <= samples@.len(),
            r@.len() == i,
            forall|k: int|
                0 <= k < i ==> r@[k] == (
                    (#[trigger] samples@[k]).timestamp_ms,
                    samples@[k].volume,
                ),
        decreases samples@.len() - i,
    {
        r.push((samples[i].timestamp_ms, samples[i].volume));
        i = i + 1;
    }
    r
}

/// Direction color of a candle.
#[derive(Clone, Copy, PartialEq, Eq, Structural, Debug)]
pub enum CandleColor {
    Up,
    Down,
}

/// One candle: vertical extent `[low, high]`, body edges `[open, close]`,
/// and a direction color.
#[derive(Clone, Copy, PartialEq, Eq, Structural, Debug)]
pub struct CandleBox {
    pub timestamp_ms: i64,
    pub low: i64,
    pub open: i64,
    pub close: i64,
    pub high: i64,
    pub color: CandleColor,
}

/// A candle is `Up` when its close is at least the previous sample's close;
/// the first candle defaults to `Up`.
pub open spec fn spec_candle_color(s: Seq<Sample>, i: int) -> CandleColor {
    if i == 0 {
        CandleColor::Up
    } else if s[i - 1].close > s[i].close {
        CandleColor::Down
    } else {
        CandleColor::Up
    }
}

/// Candle geometry: one box per sample carrying its OHLC spread and its
/// direction color.
pub fn candle_boxes(samples: &Vec<Sample>) -> (r: Vec<CandleBox>)
    ensures
        r@.len() == samples@.len(),
        forall|i: int|
            0 <= i < samples@.len() ==> r@[i] == (CandleBox {
                timestamp_ms: (#[trigger] samples@[i]).timestamp_ms,
                low: samples@[i].low,
                open: samples@[i].open,
                close: samples@[i].close,
                high: samples@[i].high,
                color: spec_candle_color(samples@, i),
            }),
{
    let mut r: Vec<CandleBox> = Vec::new();
    let mut previous_close: Option<i64> = None;
    let mut i: usize = 0;
    while i < samples.len()
        invariant
            0 <= i <= samples@.len(),
            r@.len() == i,
            previous_close == if i == 0 {
                Option::<i64>::None
            } else {
                Option::<i64>::Some(samples@[i - 1].close)
            },
            forall|k: int|
                0 <= k < i ==> r@[k] == (CandleBox {
                    timestamp_ms: (#[trigger] samples@[k]).timestamp_ms,
                    low: samples@[k].low,
                    open: samples@[k].open,
                    close: samples@[k].close,
                    high: samples@[k].high,
                    color: spec_candle_color(samples@, k),
                }),
        decreases samples@.len() - i,
    {
        let s = samples[i];
        let color = match previous_close {
            Option::Some(last_close) => if last_close > s.close {
                CandleColor::Down
            } else {
                CandleColor::Up
            },
            Option::None => CandleColor::Up,
        };
        r.push(
            CandleBox {
                timestamp_ms: s.timestamp_ms,
                low: s.low,
                open: s.open,
                close: s.close,
                high: s.high,
                color,
            },
        );
        previous_close = Some(s.close);
        i = i + 1;
    }
    r
}

/// Least timestamp among the samples (defined over a nonempty sequence).
pub open spec fn spec_min_ts(s: Seq<Sample>) -> int
    decreases s.len(),
{
    if s.len() <= 1 {
        s[0].timestamp_ms as int
    } else if s.last().timestamp_ms < spec_min_ts(s.drop_last()) {
        s.last().timestamp_ms as int
    } else {
        spec_min_ts(s.drop_last())
    }
}

/// Greatest timestamp among the samples (defined over a nonempty sequence).
pub open spec fn spec_max_ts(s: Seq<Sample>) -> int
    decreases s.len(),
{
    if s.len() <= 1 {
        s[0].timestamp_ms as int
    } else if s.last().timestamp_ms > spec_max_ts(s.drop_last()) {
        s.last().timestamp_ms as int
    } else {
        spec_max_ts(s.drop_last())
    }
}

/// The least and greatest timestamp among the samples, or `None` when there
/// are no samples.
pub fn time_bounds(samples: &Vec<Sample>) -> (r: Option<(i64, i64)>)
    ensures
        r is Some <==> samples@.len() > 0,
        samples@.len() > 0 ==> r == Some(
            (spec_min_ts(samples@) as i64, spec_max_ts(samples@) as i64),
        ),
{
    if samples.len() == 0 {
        return None;
    }
    let mut lo = samples[0].timestamp_ms;
    let mut hi = samples[0].timestamp_ms;
    let mut i: usize = 1;
    while i < samples.len()
        invariant
            1 <= i <= samples@.len(),
            samples@.len() > 0,
            lo == spec_min_ts(samples@.subrange(0, i as int)),
            hi == spec_max_ts(samples@.subrange(0, i as int)),
        decreases samples@.len() - i,
    {
        let ts = samples[i].timestamp_ms;
        proof {
            let p = samples@.subrange(0, i as int + 1);
            assert(p.drop_last() =~= samples@.subrange(0, i as int));
            assert(p.last() == samples@[i as int]);
        }
        if ts < lo {
            lo = ts;
        }
        if ts > hi {
            hi = ts;
        }
        i = i + 1;
    }
    proof {
        assert(samples@.subrange(0, samples@.len() as int) =~= samples@);
    }
    Some((lo, hi))
}

} // verus!
