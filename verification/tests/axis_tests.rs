use rusty_trading::axis::{format_time_axis, DAY_MS, HOUR_MS};
use rusty_trading::endpoints::{quote_request_path, simulation_request_path, transaction_path};

// 2020-09-13T12:26:40Z
const MARK: i64 = 1_600_000_000_000;

#[test]
fn axis_label_is_a_date_over_more_than_a_day() {
    let label = format_time_axis(MARK, 0, DAY_MS + 1);
    assert_eq!(label.as_str(), "2020-09-13");
    // a reversed range spans the same distance
    let label = format_time_axis(MARK, DAY_MS + 1, 0);
    assert_eq!(label.as_str(), "2020-09-13");
}

#[test]
fn axis_label_is_hour_minute_over_more_than_an_hour() {
    let label = format_time_axis(MARK, 0, HOUR_MS + 1);
    assert_eq!(label.as_str(), "12:26");
    // exactly one day does not switch to dates
    let label = format_time_axis(MARK, 0, DAY_MS);
    assert_eq!(label.as_str(), "12:26");
}

#[test]
fn axis_label_has_seconds_on_short_spans() {
    let label = format_time_axis(MARK, 0, HOUR_MS);
    assert_eq!(label.as_str(), "12:26:40");
    let label = format_time_axis(0, 0, 0);
    assert_eq!(label.as_str(), "00:00:00");
}

#[test]
fn axis_clock_wraps_before_the_epoch() {
    // one millisecond before the epoch is the last second of 1969-12-31
    let label = format_time_axis(-1, 0, 0);
    assert_eq!(label.as_str(), "23:59:59");
    let label = format_time_axis(-1, 0, HOUR_MS + 1);
    assert_eq!(label.as_str(), "23:59");
}

#[test]
fn request_paths() {
    assert_eq!(quote_request_path("ACME").as_str(), "/stock?stock=ACME");
    assert_eq!(transaction_path().as_str(), "/transaction");
    assert_eq!(simulation_request_path("ACME").as_str(), "/simulation_start?stock=ACME");
}
