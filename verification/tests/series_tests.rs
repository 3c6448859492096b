use rusty_trading::series::{Granularity, Sample, TimeSeries};

fn sample(ts: i64, open: i64, high: i64, low: i64, close: i64, volume: u64) -> Sample {
    Sample { timestamp_ms: ts, open, high, low, close, volume }
}

#[test]
fn empty_series_has_no_data() {
    let ts = TimeSeries::empty();
    assert_eq!(ts.len(), 0);
    assert!(ts.is_empty());
    assert_eq!(ts.granularity(), Granularity::Day);
    assert_eq!(ts.start_ms(), 0);
    assert_eq!(ts.end_ms(), 0);
    assert_eq!(ts.snapshot(), vec![]);
}

#[test]
fn new_series_keeps_parts() {
    let samples = vec![sample(1, 10, 12, 9, 11, 100), sample(2, 11, 13, 10, 12, 200)];
    let ts = TimeSeries::new(Granularity::Hour, 1, 3, samples.clone());
    assert_eq!(ts.granularity(), Granularity::Hour);
    assert_eq!(ts.start_ms(), 1);
    assert_eq!(ts.end_ms(), 3);
    assert_eq!(ts.len(), 2);
    assert_eq!(ts.snapshot(), samples);
}

#[test]
fn replace_then_snapshot_returns_exactly_what_was_stored() {
    let mut ts = TimeSeries::empty();
    let samples = vec![
        sample(0, 1, 4, 0, 2, 10),
        sample(1000, 2, 5, 1, 3, 20),
        sample(3000, 3, 6, 2, 4, 30),
    ];
    ts.replace(samples.clone());
    // interleaved reads do not disturb the store
    let first_read = ts.snapshot();
    let second_read = ts.snapshot();
    assert_eq!(first_read, samples);
    assert_eq!(second_read, samples);
    assert_eq!(ts.len(), 3);
}

#[test]
fn replace_with_empty_is_valid() {
    let mut ts = TimeSeries::new(Granularity::Day, 0, 10, vec![sample(1, 1, 1, 1, 1, 1)]);
    ts.replace(vec![]);
    assert!(ts.is_empty());
    assert_eq!(ts.snapshot(), vec![]);
    // granularity and window survive a replace
    assert_eq!(ts.granularity(), Granularity::Day);
    assert_eq!(ts.end_ms(), 10);
}

#[test]
fn replace_overwrites_previous_series() {
    let mut ts = TimeSeries::empty();
    ts.replace(vec![sample(1, 1, 1, 1, 1, 1), sample(2, 2, 2, 2, 2, 2)]);
    let newer = vec![sample(5, 5, 5, 5, 5, 5)];
    ts.replace(newer.clone());
    assert_eq!(ts.snapshot(), newer);
}
