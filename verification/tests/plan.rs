use chrono::{Datelike, NaiveDate};
use finalgo::calendar::{add_naive_date, subtract_naive_date};
use finalgo::plan::{EvalPlan, EvalSample};

fn day(y: i32, m: u32, d: u32) -> i32 {
    NaiveDate::from_ymd_opt(y, m, d).unwrap().num_days_from_ce()
}

#[test]
fn plan_covers_every_sample_and_ticker() {
    let tickers = vec!["GDX".to_string(), "SIL".to_string()];
    let end = day(2025, 3, 21);
    let plan = EvalPlan::build(end, 2, &tickers).unwrap();
    // warmup = 2 + 5 trading days before Friday 21 March 2025
    let first = subtract_naive_date(end, 7).unwrap();
    assert_eq!(first, day(2025, 3, 12));
    let second = add_naive_date(first, 1).unwrap();
    assert_eq!(plan.samples.len(), 4);
    let got: Vec<(i32, i32, &str)> = plan
        .samples
        .iter()
        .map(|s| (s.predict_end, s.target_end, s.ticker.as_str()))
        .collect();
    assert_eq!(
        got,
        vec![
            (first, day(2025, 3, 19), "GDX"),
            (first, day(2025, 3, 19), "SIL"),
            (second, day(2025, 3, 20), "GDX"),
            (second, day(2025, 3, 20), "SIL"),
        ]
    );
    assert_eq!(plan.absolute_start, subtract_naive_date(first, 610).unwrap());
    assert_eq!(plan.absolute_end, day(2025, 3, 20));
}

#[test]
fn plan_without_samples() {
    let tickers = vec!["SPY".to_string()];
    let end = day(2025, 3, 21);
    let plan = EvalPlan::build(end, 0, &tickers).unwrap();
    let first = subtract_naive_date(end, 5).unwrap();
    assert!(plan.samples.is_empty());
    assert_eq!(plan.absolute_end, first);
}

#[test]
fn plan_outside_the_calendar_range() {
    let tickers = vec!["SPY".to_string()];
    assert!(EvalPlan::build(i32::MIN, 3, &tickers).is_none());
}

#[test]
fn sample_windows_do_not_look_ahead() {
    let tickers = vec!["GDX".to_string()];
    let end = day(2025, 3, 21);
    let plan = EvalPlan::build(end, 3, &tickers).unwrap();
    // The bar days a cache filled for the plan's range holds.
    let mut days = vec![plan.absolute_start];
    while *days.last().unwrap() < plan.absolute_end {
        days.push(add_naive_date(*days.last().unwrap(), 1).unwrap());
    }
    assert_eq!(*days.last().unwrap(), plan.absolute_end);
    for sample in &plan.samples {
        assert!(plan.absolute_start < sample.predict_end);
        assert!(sample.target_end <= plan.absolute_end);
        assert_eq!(add_naive_date(sample.predict_end, 5), Some(sample.target_end));
        let ((ps, pe), (ts, te)) = sample.windows(&days).unwrap();
        assert_eq!(pe + 1 - ps, 610);
        assert_eq!(days[pe], sample.predict_end);
        assert_eq!(te + 1 - ts, 5);
        assert_eq!(days[te], sample.target_end);
        assert!(pe < ts);
        assert!(days[ts..=te].iter().all(|d| *d > sample.predict_end));
    }
}

#[test]
fn sample_windows_need_enough_bars() {
    let sample = EvalSample {
        predict_end: day(2025, 3, 12),
        target_end: day(2025, 3, 19),
        ticker: "GDX".to_string(),
    };
    let days = vec![day(2025, 3, 12), day(2025, 3, 13), day(2025, 3, 14), day(2025, 3, 17)];
    assert_eq!(sample.windows(&days), None);
}
