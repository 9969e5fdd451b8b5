use chrono::{Datelike, NaiveDate};
use finalgo::data::{candle_date_text, select_window, DataKey};

#[test]
fn window_ends_at_last_bar_not_after_end() {
    let days = [10, 11, 12, 15, 16, 17];
    assert_eq!(select_window(&days, 15, 3), Some((1, 3)));
    assert_eq!(select_window(&days, 14, 3), Some((0, 2)));
    assert_eq!(select_window(&days, 100, 6), Some((0, 5)));
    assert_eq!(select_window(&days, 17, 1), Some((5, 5)));
}

#[test]
fn window_needs_enough_bars() {
    let days = [10, 11, 12, 15, 16, 17];
    assert_eq!(select_window(&days, 12, 4), None);
    assert_eq!(select_window(&days, 9, 1), None);
    assert_eq!(select_window(&[], 20, 1), None);
}

#[test]
fn candle_labels() {
    assert_eq!(candle_date_text(1, 6, 2026), "01.06.2026");
    assert_eq!(candle_date_text(31, 12, 1999), "31.12.1999");
    assert_eq!(candle_date_text(5, 10, 987), "05.10.987");
    assert_eq!(candle_date_text(9, 9, -44), "09.09.-44");
}

#[test]
fn key_end_matches_candle_label() {
    let key = DataKey { size: 610, end: "01.06.2026".to_string(), ticker: "SPY".to_string() };
    assert!(key.ends_on(1, 6, 2026));
    assert!(!key.ends_on(2, 6, 2026));
    assert!(!key.ends_on(1, 6, 2025));
}

fn day(y: i32, m: u32, d: u32) -> i32 {
    NaiveDate::from_ymd_opt(y, m, d).unwrap().num_days_from_ce()
}

#[test]
fn request_spans_look_back_and_next_trading_day() {
    let key = DataKey { size: 5, end: "07.03.2025".to_string(), ticker: "SPY".to_string() };
    // five trading days before Friday 7 March 2025 is Friday 28 February;
    // the exclusive end is the next trading day, Monday 10 March
    assert_eq!(key.request_days(), Some((day(2025, 2, 28), day(2025, 3, 10))));
}

#[test]
fn request_with_bad_end_date() {
    let key = DataKey { size: 5, end: "2025-03-07".to_string(), ticker: "SPY".to_string() };
    assert_eq!(key.request_days(), None);
}
