use chrono::{Datelike, NaiveDate};
use finalgo::calendar::{
    add_naive_date, add_trading_days, format_naive_date, parse_naive_date, subtract_naive_date,
    subtract_trading_days, Market, MAX_CALENDAR_DAY, MIN_CALENDAR_DAY,
};

fn day(y: i32, m: u32, d: u32) -> i32 {
    NaiveDate::from_ymd_opt(y, m, d).unwrap().num_days_from_ce()
}

#[test]
fn parses_day_month_year() {
    assert_eq!(parse_naive_date("01.06.2026"), Some(day(2026, 6, 1)));
    assert_eq!(parse_naive_date("24.12.2025"), Some(day(2025, 12, 24)));
    assert_eq!(parse_naive_date("2026-06-01"), None);
    assert_eq!(parse_naive_date("31.02.2025"), None);
}

#[test]
fn formats_day_month_year() {
    assert_eq!(format_naive_date(day(2026, 6, 1)), Some("01.06.2026".to_string()));
    assert_eq!(format_naive_date(day(2025, 12, 24)), Some("24.12.2025".to_string()));
}

#[test]
fn next_trading_day_skips_weekend() {
    // Friday 7 March 2025 -> Monday 10 March 2025
    assert_eq!(add_naive_date(day(2025, 3, 7), 1), Some(day(2025, 3, 10)));
    assert_eq!(add_naive_date(day(2025, 3, 7), 0), Some(day(2025, 3, 7)));
}

#[test]
fn next_trading_day_skips_holiday() {
    // Christmas 2025 is a Thursday
    assert_eq!(add_naive_date(day(2025, 12, 24), 1), Some(day(2025, 12, 26)));
    assert_eq!(add_naive_date(day(2025, 12, 23), 2), Some(day(2025, 12, 26)));
}

#[test]
fn previous_trading_days() {
    // Monday 10 March 2025 -> Friday 7 March 2025
    assert_eq!(subtract_naive_date(day(2025, 3, 10), 1), Some(day(2025, 3, 7)));
    assert_eq!(subtract_naive_date(day(2025, 3, 10), 5), Some(day(2025, 3, 3)));
}

#[test]
fn five_trading_days_make_a_week() {
    assert_eq!(add_trading_days(Market::Nasdaq, day(2025, 3, 3), 5), Some(day(2025, 3, 10)));
    assert_eq!(subtract_trading_days(Market::Nyse, day(2025, 3, 10), 5), Some(day(2025, 3, 3)));
}

#[test]
fn steps_outside_the_range_give_none() {
    assert_eq!(add_trading_days(Market::Nasdaq, i32::MAX, 1), None);
    assert_eq!(subtract_trading_days(Market::Nasdaq, i32::MIN, 1), None);
    assert_eq!(add_trading_days(Market::Nasdaq, i32::MAX, 0), Some(i32::MAX));
}

#[test]
fn subtracting_what_was_added_returns_to_a_trading_day() {
    // Tuesday 23 December 2025, across Christmas and the weekend
    let d = day(2025, 12, 23);
    for n in 0..12 {
        let later = add_naive_date(d, n).unwrap();
        assert_eq!(subtract_naive_date(later, n), Some(d));
        let earlier = subtract_naive_date(d, n).unwrap();
        assert_eq!(add_naive_date(earlier, n), Some(d));
    }
}

#[test]
fn round_trip_from_a_weekend_lands_on_the_trading_day_before() {
    // Saturday 8 March 2025 is no trading day: the round trip ends on Friday.
    let later = add_naive_date(day(2025, 3, 8), 3).unwrap();
    assert_eq!(later, day(2025, 3, 12));
    assert_eq!(subtract_naive_date(later, 3), Some(day(2025, 3, 7)));
}

#[test]
fn calendar_range_reaches_a_month_from_the_ends_of_chrono() {
    assert_eq!(NaiveDate::MAX.num_days_from_ce(), MAX_CALENDAR_DAY + 31);
    assert_eq!(NaiveDate::MIN.num_days_from_ce(), MIN_CALENDAR_DAY - 31);
    let late = add_naive_date(MAX_CALENDAR_DAY - 10, 1).unwrap();
    assert!(late > MAX_CALENDAR_DAY - 10);
    let early = subtract_naive_date(MIN_CALENDAR_DAY + 10, 1).unwrap();
    assert!(early < MIN_CALENDAR_DAY + 10);
    assert!(add_naive_date(MAX_CALENDAR_DAY, 1).is_some());
    assert_eq!(add_naive_date(MAX_CALENDAR_DAY + 1, 1), None);
    assert_eq!(subtract_naive_date(MIN_CALENDAR_DAY - 1, 1), None);
}
