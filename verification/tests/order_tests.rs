use rusty_trading::order::{OrderForm, OrderSide, OrderStatus};
use rusty_trading::text::{format_volume, parse_quantity, validate_trade_inputs};

#[test]
fn begin_order_with_valid_input_moves_to_pending() {
    let mut f = OrderForm::new();
    assert_eq!(f.status(), OrderStatus::Editing);
    assert!(f.begin_order(OrderSide::Buy, "10", "5.50"));
    assert_eq!(f.status(), OrderStatus::PendingConfirmation);
    assert_eq!(f.side(), Some(OrderSide::Buy));
    assert_eq!(f.qty_text().as_str(), "10");
    assert_eq!(f.price_text().as_str(), "5.50");
}

#[test]
fn begin_order_with_invalid_quantity_stays_editing() {
    let mut f = OrderForm::new();
    assert!(!f.begin_order(OrderSide::Buy, "abc", "5.50"));
    assert_eq!(f.status(), OrderStatus::Editing);
    assert_eq!(f.side(), None);
    assert_eq!(f.qty_text().as_str(), "");
    assert_eq!(f.price_text().as_str(), "");
}

#[test]
fn begin_order_with_invalid_price_stays_editing() {
    let mut f = OrderForm::new();
    assert!(!f.begin_order(OrderSide::Sell, "10", "x1"));
    assert_eq!(f.status(), OrderStatus::Editing);
}

#[test]
fn confirm_clears_fields_and_returns_to_editing() {
    let mut f = OrderForm::new();
    assert!(f.begin_order(OrderSide::Sell, "3", "2.25"));
    let sym = String::from("ACME");
    let req = f.confirm_order(&sym).expect("pending order must confirm");
    assert_eq!(req.symbol.as_str(), "ACME");
    assert_eq!(req.side, OrderSide::Sell);
    assert_eq!(req.qty_text.as_str(), "3");
    assert_eq!(req.price_text.as_str(), "2.25");
    assert_eq!(f.status(), OrderStatus::Editing);
    assert_eq!(f.qty_text().as_str(), "");
    assert_eq!(f.price_text().as_str(), "");
    assert_eq!(f.side(), None);
}

#[test]
fn confirm_without_pending_does_nothing() {
    let mut f = OrderForm::new();
    let sym = String::from("ACME");
    assert!(f.confirm_order(&sym).is_none());
    assert_eq!(f.status(), OrderStatus::Editing);
}

#[test]
fn cancel_keeps_fields_untouched() {
    let mut f = OrderForm::new();
    assert!(f.begin_order(OrderSide::Buy, "7", "1.5"));
    assert!(f.cancel_order());
    assert_eq!(f.status(), OrderStatus::Editing);
    assert_eq!(f.qty_text().as_str(), "7");
    assert_eq!(f.price_text().as_str(), "1.5");
    assert_eq!(f.side(), Some(OrderSide::Buy));
}

#[test]
fn cancel_without_pending_does_nothing() {
    let mut f = OrderForm::new();
    assert!(!f.cancel_order());
    assert_eq!(f.status(), OrderStatus::Editing);
}

#[test]
fn begin_order_ignored_while_pending() {
    let mut f = OrderForm::new();
    assert!(f.begin_order(OrderSide::Buy, "1", "2"));
    assert!(!f.begin_order(OrderSide::Sell, "9", "9"));
    assert_eq!(f.side(), Some(OrderSide::Buy));
    assert_eq!(f.qty_text().as_str(), "1");
}

#[test]
fn validate_trade_inputs_cases() {
    assert!(validate_trade_inputs("10", "5.50"));
    assert!(validate_trade_inputs("1", "2"));
    assert!(validate_trade_inputs("007", "0.01"));
    // quantity must be a positive integer within u32
    assert!(!validate_trade_inputs("abc", "5.50"));
    assert!(!validate_trade_inputs("", "5.50"));
    assert!(!validate_trade_inputs("0", "5.50"));
    assert!(!validate_trade_inputs("-1", "5.50"));
    assert!(!validate_trade_inputs("1.5", "5.50"));
    assert!(!validate_trade_inputs("4294967296", "5.50"));
    assert!(validate_trade_inputs("4294967295", "5.50"));
    // price is parseable positive numeric text: leading-dot, trailing-dot,
    // plus-signed and exponent forms all parse
    assert!(validate_trade_inputs("10", ".5"));
    assert!(validate_trade_inputs("10", "5."));
    assert!(validate_trade_inputs("10", "+5"));
    assert!(validate_trade_inputs("10", "+.5"));
    assert!(validate_trade_inputs("10", "1e3"));
    assert!(validate_trade_inputs("10", "5E-2"));
    assert!(validate_trade_inputs("10", "2.5e+1"));
    // but it must have a digit, a single dot at most, one sign in one
    // place, a nonzero digit, and nothing but an exponent after the marker
    assert!(!validate_trade_inputs("10", ""));
    assert!(!validate_trade_inputs("10", "."));
    assert!(!validate_trade_inputs("10", "+"));
    assert!(!validate_trade_inputs("10", "0.00"));
    assert!(!validate_trade_inputs("10", "0"));
    assert!(!validate_trade_inputs("10", "0e5"));
    assert!(!validate_trade_inputs("10", "1..2"));
    assert!(!validate_trade_inputs("10", "1.2.3"));
    assert!(!validate_trade_inputs("10", "-1.5"));
    assert!(!validate_trade_inputs("10", "1,5"));
    assert!(!validate_trade_inputs("10", "e3"));
    assert!(!validate_trade_inputs("10", "5e"));
    assert!(!validate_trade_inputs("10", "5e+"));
    assert!(!validate_trade_inputs("10", "5e1.5"));
}

#[test]
fn parse_quantity_values() {
    assert_eq!(parse_quantity("1"), Some(1));
    assert_eq!(parse_quantity("042"), Some(42));
    assert_eq!(parse_quantity("4294967295"), Some(u32::MAX));
    assert_eq!(parse_quantity("4294967296"), None);
    assert_eq!(parse_quantity("0"), None);
    assert_eq!(parse_quantity("00"), None);
    assert_eq!(parse_quantity(""), None);
    assert_eq!(parse_quantity("12a"), None);
}

#[test]
fn format_volume_plain_below_a_thousand() {
    assert_eq!(format_volume(0).as_str(), "0");
    assert_eq!(format_volume(7).as_str(), "7");
    assert_eq!(format_volume(999).as_str(), "999");
}

#[test]
fn format_volume_thousands() {
    assert_eq!(format_volume(1_000).as_str(), "1.0K");
    assert_eq!(format_volume(1_500).as_str(), "1.5K");
    assert_eq!(format_volume(1_549).as_str(), "1.5K");
    assert_eq!(format_volume(1_550).as_str(), "1.6K");
    assert_eq!(format_volume(999_949).as_str(), "999.9K");
}

#[test]
fn format_volume_millions() {
    assert_eq!(format_volume(1_000_000).as_str(), "1.0M");
    assert_eq!(format_volume(1_250_000).as_str(), "1.3M");
    assert_eq!(format_volume(1_240_000).as_str(), "1.2M");
    assert_eq!(format_volume(123_456_789).as_str(), "123.5M");
}
