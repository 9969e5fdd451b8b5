use chrono::{Datelike, NaiveDate};
use finalgo::cli::{eval_file_day_of, latest_eval_day, EvalArgs};
use finalgo::consts::{CANDLE_LOOK_BACK, FETCH_CHUNK_SIZE, FETCH_RETRIES, TARGET_HORIZON};
use finalgo::fetch::{FetchAction, FetchOutcome, FetchRetry};
use finalgo::metric::{LossMetric, PrecisionMetric, ProfitLossMetric, StatsMetric};
use finalgo::signal::Decision;
use finalgo::trade::TradeGate;
use finalgo::veto::MacroVeto;

fn eval_args(out: Option<&str>) -> EvalArgs {
    EvalArgs {
        stats: false,
        samples: EvalArgs::DEFAULT_SAMPLES,
        rank: true,
        out: out.map(|s| s.to_string()),
        end: "01.01.2026".to_string(),
        tickers: vec!["GDX".to_string()],
    }
}

#[test]
fn auto_output_path() {
    assert_eq!(eval_args(Some("auto")).output_path(), Some("eval/01.01.2026.json".to_string()));
    assert_eq!(eval_args(Some("out.json")).output_path(), Some("out.json".to_string()));
    assert_eq!(eval_args(None).output_path(), None);
    assert_eq!(EvalArgs::DEFAULT_SAMPLES, 250);
}

#[test]
fn constants() {
    assert_eq!(CANDLE_LOOK_BACK, 610);
    assert_eq!(TARGET_HORIZON, 5);
    assert_eq!(FETCH_RETRIES, 5);
    assert_eq!(FETCH_CHUNK_SIZE, 10);
}

#[test]
fn macro_veto_starts_empty() {
    let v = MacroVeto::new();
    assert!(!v.is_computed());
    assert!(!v.vetoes_short_at(0));
    assert!(!v.vetoes_long_at(0));
    assert_eq!(MacroVeto::name(), "macro_veto");
}

#[test]
fn macro_veto_reads_bars() {
    let v = MacroVeto { veto_shorts: vec![false, true], veto_longs: vec![true, false] };
    assert!(v.is_computed());
    assert!(v.vetoes_short_at(1));
    assert!(!v.vetoes_short_at(0));
    assert!(v.vetoes_long_at(0));
    assert!(!v.vetoes_long_at(1));
    assert!(!v.vetoes_short_at(2));
}

#[test]
fn metric_names() {
    assert_eq!(LossMetric.name(), "loss");
    assert_eq!(PrecisionMetric.name(), "precision");
    assert_eq!(ProfitLossMetric.name(), "profit_loss");
    assert_eq!(StatsMetric.name(), "stats");
}

#[test]
fn trade_gate_blocks_disabled_sides() {
    let no_longs = TradeGate { longs_enabled: false, shorts_enabled: true };
    assert_eq!(no_longs.apply(Decision::Long), Decision::Neutral);
    assert_eq!(no_longs.apply(Decision::Short), Decision::Short);
    assert_eq!(no_longs.specifics(), vec!["no longs".to_string()]);
    let closed = TradeGate { longs_enabled: false, shorts_enabled: false };
    assert_eq!(closed.apply(Decision::Short), Decision::Neutral);
    assert_eq!(closed.specifics(), vec!["no longs".to_string(), "no shorts".to_string()]);
    let open = TradeGate { longs_enabled: true, shorts_enabled: true };
    assert_eq!(open.apply(Decision::Long), Decision::Long);
    assert!(open.specifics().is_empty());
}

#[test]
fn retries_stop_after_five_retries() {
    let mut r = FetchRetry::new();
    let mut issued = 1;
    loop {
        match r.on_response(FetchOutcome::Failed) {
            FetchAction::Retry => issued += 1,
            FetchAction::GiveUp => break,
            other => panic!("unexpected action {other:?}"),
        }
    }
    assert_eq!(issued, FETCH_RETRIES + 1);
    assert_eq!(issued, 6);
    assert_eq!(r.attempts, FETCH_RETRIES + 1);
}

#[test]
fn success_after_five_failures_is_accepted() {
    let mut r = FetchRetry::new();
    for _ in 0..5 {
        assert_eq!(r.on_response(FetchOutcome::Failed), FetchAction::Retry);
    }
    assert_eq!(r.attempts, 6);
    assert_eq!(r.on_response(FetchOutcome::Success), FetchAction::Accept);
    assert_eq!(r.attempts, 6);
}

#[test]
fn rate_limit_waits_then_success_is_accepted() {
    let mut r = FetchRetry::new();
    assert_eq!(r.on_response(FetchOutcome::RateLimited), FetchAction::WaitAndRetry);
    assert_eq!(r.attempts, 2);
    assert_eq!(r.on_response(FetchOutcome::Success), FetchAction::Accept);
    assert_eq!(r.attempts, 2);
}

#[test]
fn latest_eval_file_is_the_latest_date() {
    let names = vec![
        "01.01.2026.json".to_string(),
        "README.md".to_string(),
        "15.03.2026.json".to_string(),
        "28.02.2026.json".to_string(),
    ];
    let expected = NaiveDate::from_ymd_opt(2026, 3, 15).unwrap().num_days_from_ce();
    assert_eq!(latest_eval_day(&names), Ok(Some(expected)));
}

#[test]
fn latest_eval_file_without_json_files() {
    let names = vec!["notes.txt".to_string(), "json".to_string()];
    assert_eq!(latest_eval_day(&names), Ok(None));
    assert_eq!(latest_eval_day(&Vec::new()), Ok(None));
}

#[test]
fn latest_eval_file_with_a_bad_date() {
    let names = vec![
        "01.01.2026.json".to_string(),
        "latest.json".to_string(),
        "31.02.2026.json".to_string(),
    ];
    assert_eq!(latest_eval_day(&names), Err(1));
}

#[test]
fn eval_file_names_are_trimmed() {
    let expected = NaiveDate::from_ymd_opt(2026, 1, 1).unwrap().num_days_from_ce();
    assert_eq!(eval_file_day_of("  01.01.2026.json"), Some(Some(expected)));
    assert_eq!(eval_file_day_of("01.01.2026.json "), None);
    assert_eq!(eval_file_day_of("eval.csv"), None);
}

#[test]
fn m_failures_then_success_issue_min_m_five_plus_one_requests() {
    for m in 0..9usize {
        let mut r = FetchRetry::new();
        let mut issued = 1;
        let mut responses = 0;
        let accepted = loop {
            let outcome = if responses < m { FetchOutcome::RateLimited } else { FetchOutcome::Success };
            responses += 1;
            match r.on_response(outcome) {
                FetchAction::Accept => break true,
                FetchAction::GiveUp => break false,
                FetchAction::WaitAndRetry | FetchAction::Retry => issued += 1,
            }
        };
        assert_eq!(issued, m.min(FETCH_RETRIES) + 1);
        assert_eq!(accepted, m <= FETCH_RETRIES);
    }
}
