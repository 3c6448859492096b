use rusty_trading::order::{OrderSide, OrderStatus};
use rusty_trading::series::{Granularity, Sample, TimeSeries};
use rusty_trading::session::{ChartKind, QuoteSnapshot, Stock};
use rusty_trading::watchlist::Watchlist;

fn sample(ts: i64, close: i64) -> Sample {
    Sample { timestamp_ms: ts, open: close, high: close, low: close, close, volume: 1 }
}

fn payload(closes: &[i64]) -> TimeSeries {
    let samples: Vec<Sample> =
        closes.iter().enumerate().map(|(i, c)| sample(i as i64 * 1000, *c)).collect();
    TimeSeries::new(Granularity::Day, 0, closes.len() as i64 * 1000, samples)
}

#[test]
fn fresh_session_defaults() {
    let st = Stock::default("ACME");
    assert_eq!(st.symbol().as_str(), "ACME");
    assert!(st.series_snapshot().is_empty());
    assert_eq!(st.quote(), QuoteSnapshot {
        last_price: 0,
        bid_price: 0,
        ask_price: 0,
        daily_change: 0,
        daily_change_bp: 0,
        volume: 0,
    });
    assert!(st.is_open());
    assert!(st.shows(ChartKind::Candle));
    assert!(!st.shows(ChartKind::Line));
    assert!(st.shows(ChartKind::Volume));
    assert_eq!(st.order().status(), OrderStatus::Editing);
    assert_eq!(st.last_refresh_ms(), 0);
}

#[test]
fn add_then_lookup_finds_fresh_session() {
    let mut wl = Watchlist::new(1000, 0);
    wl.add("AAA");
    let st = wl.lookup("AAA").expect("added symbol must be present");
    assert_eq!(st.symbol().as_str(), "AAA");
    assert!(st.series_snapshot().is_empty());
    assert_eq!(st.quote().last_price, 0);
    assert_eq!(st.quote().volume, 0);
}

#[test]
fn add_over_existing_installs_fresh_session() {
    let mut wl = Watchlist::new(1000, 0);
    wl.add("AAA");
    assert!(wl.apply_refresh("AAA", payload(&[1, 2, 3]), 5));
    assert_eq!(wl.lookup("AAA").unwrap().series_snapshot().len(), 3);
    wl.add("AAA");
    assert_eq!(wl.len(), 1);
    let st = wl.lookup("AAA").unwrap();
    assert!(st.series_snapshot().is_empty());
    assert_eq!(st.quote().last_price, 0);
}

#[test]
fn refresh_for_one_symbol_never_touches_another() {
    let mut wl = Watchlist::new(1000, 0);
    wl.add("AAA");
    wl.add("BBB");
    // completions land interleaved and out of order across symbols
    assert!(wl.apply_refresh("BBB", payload(&[7, 8]), 20));
    assert!(wl.apply_refresh("AAA", payload(&[1, 2, 3]), 10));
    assert!(wl.apply_refresh("BBB", payload(&[9]), 30));
    let a: Vec<i64> = wl.lookup("AAA").unwrap().series_snapshot().iter().map(|s| s.close).collect();
    let b: Vec<i64> = wl.lookup("BBB").unwrap().series_snapshot().iter().map(|s| s.close).collect();
    assert_eq!(a, vec![1, 2, 3]);
    assert_eq!(b, vec![9]);
    assert_eq!(wl.lookup("AAA").unwrap().last_refresh_ms(), 10);
    assert_eq!(wl.lookup("BBB").unwrap().last_refresh_ms(), 30);
}

#[test]
fn stale_refresh_after_remove_does_not_reinsert() {
    let mut wl = Watchlist::new(1000, 0);
    wl.add("AAA");
    wl.add("BBB");
    assert!(wl.remove("AAA"));
    // the in-flight completion for the removed symbol arrives late
    assert!(!wl.apply_refresh("AAA", payload(&[1, 2]), 99));
    assert!(wl.lookup("AAA").is_none());
    assert_eq!(wl.len(), 1);
    assert!(wl.lookup("BBB").is_some());
}

#[test]
fn remove_absent_symbol_is_a_no_op() {
    let mut wl = Watchlist::new(1000, 0);
    wl.add("AAA");
    assert!(!wl.remove("ZZZ"));
    assert_eq!(wl.len(), 1);
}

#[test]
fn poll_refresh_honors_the_interval() {
    let mut wl = Watchlist::new(1000, 0);
    wl.add("AAA");
    wl.add("BBB");
    // not due before the interval has elapsed
    assert!(wl.poll_refresh(999).is_empty());
    // due exactly at the interval; one request per symbol, in order
    let due: Vec<String> = wl.poll_refresh(1000);
    assert_eq!(due, vec!["AAA".to_string(), "BBB".to_string()]);
    // the tick moved the cadence forward, so an immediate re-poll is idle
    assert!(wl.poll_refresh(1500).is_empty());
    assert!(!wl.poll_refresh(2000).is_empty());
}

#[test]
fn quote_update_lands_on_the_named_session() {
    let mut wl = Watchlist::new(1000, 0);
    wl.add("AAA");
    wl.add("BBB");
    let q = QuoteSnapshot {
        last_price: 17550,
        bid_price: 17545,
        ask_price: 17555,
        daily_change: 250,
        daily_change_bp: 142,
        volume: 1_250_000,
    };
    assert!(wl.update_quote("AAA", q));
    assert_eq!(wl.lookup("AAA").unwrap().quote(), q);
    assert_eq!(wl.lookup("BBB").unwrap().quote().last_price, 0);
    assert!(!wl.update_quote("ZZZ", q));
}

#[test]
fn toggles_flip_per_session() {
    let mut wl = Watchlist::new(1000, 0);
    wl.add("AAA");
    assert!(wl.toggle("AAA", ChartKind::Line));
    assert!(wl.lookup("AAA").unwrap().shows(ChartKind::Line));
    assert!(wl.toggle("AAA", ChartKind::Candle));
    assert!(!wl.lookup("AAA").unwrap().shows(ChartKind::Candle));
    assert!(!wl.toggle("ZZZ", ChartKind::Line));
}

#[test]
fn order_workflow_through_the_registry() {
    let mut wl = Watchlist::new(1000, 0);
    wl.add("AAA");
    assert!(wl.begin_order("AAA", OrderSide::Buy, "10", "5.50"));
    let req = wl.confirm_order("AAA").expect("pending order must confirm");
    assert_eq!(req.symbol.as_str(), "AAA");
    assert_eq!(req.side, OrderSide::Buy);
    assert_eq!(req.qty_text.as_str(), "10");
    assert_eq!(req.price_text.as_str(), "5.50");
    let st = wl.lookup("AAA").unwrap();
    assert_eq!(st.order().status(), OrderStatus::Editing);
    assert_eq!(st.order().qty_text().as_str(), "");
    // nothing pending now
    assert!(wl.confirm_order("AAA").is_none());
    assert!(!wl.begin_order("AAA", OrderSide::Buy, "abc", "5.50"));
    assert_eq!(wl.lookup("AAA").unwrap().order().status(), OrderStatus::Editing);
}

#[test]
fn session_window_flag() {
    let mut wl = Watchlist::new(1000, 0);
    wl.add("AAA");
    assert!(wl.set_open("AAA", false));
    assert!(!wl.lookup("AAA").unwrap().is_open());
    assert!(!wl.set_open("ZZZ", false));
}
