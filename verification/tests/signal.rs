use finalgo::signal::{Decision, FinalScore, ScoreType, ScoreZone};

#[test]
fn decision_labels() {
    assert_eq!(Decision::Long.label(), "LONG");
    assert_eq!(Decision::Short.label(), "SHORT");
    assert_eq!(Decision::Neutral.label(), "NEUTRAL");
}

#[test]
fn final_score_labels() {
    assert_eq!(FinalScore::Long.label(), "Long");
    assert_eq!(FinalScore::Short.label(), "Short");
    assert_eq!(FinalScore::Neutral.label(), "Neutral");
}

#[test]
fn trade_classification() {
    assert!(Decision::Long.is_trade());
    assert!(Decision::Short.is_trade());
    assert!(!Decision::Neutral.is_trade());
    assert!(FinalScore::Long.is_trade());
    assert!(FinalScore::Short.is_trade());
    assert!(!FinalScore::Neutral.is_trade());
}

#[test]
fn decision_loss_table() {
    assert_eq!(Decision::mismatch_halves(Decision::Long, Decision::Long), 0);
    assert_eq!(Decision::mismatch_halves(Decision::Short, Decision::Short), 0);
    assert_eq!(Decision::mismatch_halves(Decision::Neutral, Decision::Neutral), 0);
    assert_eq!(Decision::mismatch_halves(Decision::Neutral, Decision::Long), 1);
    assert_eq!(Decision::mismatch_halves(Decision::Neutral, Decision::Short), 1);
    assert_eq!(Decision::mismatch_halves(Decision::Long, Decision::Neutral), 1);
    assert_eq!(Decision::mismatch_halves(Decision::Short, Decision::Neutral), 1);
    assert_eq!(Decision::mismatch_halves(Decision::Long, Decision::Short), 2);
    assert_eq!(Decision::mismatch_halves(Decision::Short, Decision::Long), 2);
}

#[test]
fn signal_loss_table() {
    // 0.0 = exact match, 0.5 = neutral mismatch, 1.0 = opposite side
    let as_loss = |h: u8| h as f64 / 2.0;
    assert_eq!(as_loss(FinalScore::mismatch_halves(FinalScore::Long, FinalScore::Long)), 0.0);
    assert_eq!(as_loss(FinalScore::mismatch_halves(FinalScore::Neutral, FinalScore::Short)), 0.5);
    assert_eq!(as_loss(FinalScore::mismatch_halves(FinalScore::Long, FinalScore::Neutral)), 0.5);
    assert_eq!(as_loss(FinalScore::mismatch_halves(FinalScore::Short, FinalScore::Long)), 1.0);
    assert_eq!(as_loss(FinalScore::mismatch_halves(FinalScore::Long, FinalScore::Short)), 1.0);
    assert_eq!(as_loss(FinalScore::mismatch_halves(FinalScore::Neutral, FinalScore::Neutral)), 0.0);
}

#[test]
fn mismatch_is_symmetric_on_all_pairs() {
    let all = [Decision::Long, Decision::Short, Decision::Neutral];
    for p in all {
        for t in all {
            assert_eq!(Decision::mismatch_halves(p, t), Decision::mismatch_halves(t, p));
            assert_eq!(Decision::mismatch_halves(p, t) == 0, p == t);
        }
    }
}

#[test]
fn score_type_ranges() {
    assert_eq!(ScoreType::Direction.lower_bound(), -1);
    assert_eq!(ScoreType::Quality.lower_bound(), -1);
    assert_eq!(ScoreType::Strength.lower_bound(), 0);
    assert_eq!(ScoreType::Volatility.lower_bound(), -1);
    for t in [ScoreType::Direction, ScoreType::Quality, ScoreType::Strength, ScoreType::Volatility] {
        assert_eq!(t.upper_bound(), 1);
    }
}

#[test]
fn vetoed_side_stands_aside() {

    assert_eq!(Decision::from_zone(ScoreZone::AboveLong, false, false), Decision::Long);
    assert_eq!(Decision::from_zone(ScoreZone::BelowShort, false, false), Decision::Short);
    assert_eq!(Decision::from_zone(ScoreZone::Between, true, true), Decision::Neutral);
    assert_eq!(Decision::from_zone(ScoreZone::AboveLong, false, true), Decision::Neutral);
    assert_eq!(Decision::from_zone(ScoreZone::BelowShort, true, false), Decision::Neutral);
    assert_eq!(Decision::from_zone(ScoreZone::AboveLong, true, false), Decision::Long);
    assert_eq!(Decision::from_zone(ScoreZone::BelowShort, false, true), Decision::Short);
}
