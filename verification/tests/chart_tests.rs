use rusty_trading::chart::{
    bar_width_milli, candle_boxes, estimate_time_step, line_points, time_bounds,
    timestamps_in_range, volume_bars, whisker_width_milli, CandleColor, DEFAULT_STEP_MS,
    MAX_TIMESTAMP_MS,
};
use rusty_trading::series::Sample;

fn at(ts: i64) -> Sample {
    Sample { timestamp_ms: ts, open: 0, high: 0, low: 0, close: 0, volume: 0 }
}

fn closing(ts: i64, close: i64) -> Sample {
    Sample { timestamp_ms: ts, open: close - 1, high: close + 2, low: close - 2, close, volume: 7 }
}

#[test]
fn time_step_is_mean_of_positive_deltas() {
    let samples = vec![at(0), at(1000), at(3000)];
    assert_eq!(estimate_time_step(&samples), 1500);
}

#[test]
fn time_step_fallback_on_empty_and_single() {
    assert_eq!(estimate_time_step(&vec![]), DEFAULT_STEP_MS);
    assert_eq!(estimate_time_step(&vec![at(42)]), DEFAULT_STEP_MS);
}

#[test]
fn time_step_fallback_when_all_deltas_are_zero() {
    let samples = vec![at(500), at(500), at(500)];
    assert_eq!(estimate_time_step(&samples), DEFAULT_STEP_MS);
}

#[test]
fn time_step_excludes_zero_and_backward_deltas() {
    // deltas: 0 (a tie, skipped), +200, then a backward jump of 100
    // (excluded): only the +200 delta counts
    let samples = vec![at(100), at(100), at(300), at(200)];
    assert_eq!(estimate_time_step(&samples), 200);
}

#[test]
fn time_step_ignores_out_of_order_pairs() {
    // deltas +200 and -100: the mean is over the positive delta alone
    let samples = vec![at(100), at(300), at(200)];
    assert_eq!(estimate_time_step(&samples), 200);
}

#[test]
fn time_step_fallback_when_all_deltas_are_backward() {
    let samples = vec![at(300), at(200), at(100)];
    assert_eq!(estimate_time_step(&samples), DEFAULT_STEP_MS);
}

#[test]
fn time_step_truncates_the_mean() {
    // deltas 1000 and 2001: mean 1500.5 truncates to 1500
    let samples = vec![at(0), at(1000), at(3001)];
    assert_eq!(estimate_time_step(&samples), 1500);
}

#[test]
fn candle_colors_follow_close_direction() {
    let samples = vec![closing(0, 10), closing(1, 12), closing(2, 9)];
    let boxes = candle_boxes(&samples);
    assert_eq!(boxes.len(), 3);
    assert_eq!(boxes[0].color, CandleColor::Up);
    assert_eq!(boxes[1].color, CandleColor::Up);
    assert_eq!(boxes[2].color, CandleColor::Down);
}

#[test]
fn equal_closes_color_up() {
    let samples = vec![closing(0, 10), closing(1, 10)];
    let boxes = candle_boxes(&samples);
    assert_eq!(boxes[1].color, CandleColor::Up);
}

#[test]
fn candle_boxes_carry_the_spread() {
    let samples = vec![closing(5, 10)];
    let boxes = candle_boxes(&samples);
    assert_eq!(boxes[0].timestamp_ms, 5);
    assert_eq!(boxes[0].open, 9);
    assert_eq!(boxes[0].high, 12);
    assert_eq!(boxes[0].low, 8);
    assert_eq!(boxes[0].close, 10);
}

#[test]
fn bar_width_is_six_tenths_of_the_step() {
    // step 1500 ms: body 900 ms, whisker 360 ms, in thousandths
    assert_eq!(bar_width_milli(1500), 900_000);
    assert_eq!(whisker_width_milli(1500), 360_000);
}

#[test]
fn widths_clamp_to_one_millisecond() {
    assert_eq!(bar_width_milli(1), 1000);
    assert_eq!(whisker_width_milli(1), 1000);
    // whisker clamps where 0.4 * body falls below a millisecond
    assert_eq!(bar_width_milli(2), 1200);
    assert_eq!(whisker_width_milli(2), 1000);
}

#[test]
fn line_points_pair_timestamp_with_close() {
    let samples = vec![closing(0, 10), closing(1000, 12)];
    let pts = line_points(&samples);
    assert_eq!(pts, vec![(0, 10), (1000, 12)]);
}

#[test]
fn volume_bars_pair_timestamp_with_volume() {
    let samples = vec![
        Sample { timestamp_ms: 3, open: 0, high: 0, low: 0, close: 0, volume: 11 },
        Sample { timestamp_ms: 7, open: 0, high: 0, low: 0, close: 0, volume: 22 },
    ];
    let bars = volume_bars(&samples);
    assert_eq!(bars, vec![(3, 11), (7, 22)]);
}

#[test]
fn time_bounds_finds_min_and_max() {
    assert_eq!(time_bounds(&vec![]), None);
    assert_eq!(time_bounds(&vec![at(5)]), Some((5, 5)));
    assert_eq!(time_bounds(&vec![at(5), at(-3), at(9), at(2)]), Some((-3, 9)));
}

#[test]
fn timestamp_range_check() {
    assert!(timestamps_in_range(&vec![at(0), at(MAX_TIMESTAMP_MS)]));
    assert!(!timestamps_in_range(&vec![at(MAX_TIMESTAMP_MS + 1)]));
    assert!(!timestamps_in_range(&vec![at(-MAX_TIMESTAMP_MS - 1)]));
}
