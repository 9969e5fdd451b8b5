use finalgo::signal::{Decision, FinalScore};
use finalgo::tally::{AccuracyCounts, PrecisionCounts};

#[test]
fn accuracy_counts_of_mixed_predictions() {
    let pairs = [
        (FinalScore::Long, FinalScore::Long),
        (FinalScore::Long, FinalScore::Short),
        (FinalScore::Short, FinalScore::Short),
        (FinalScore::Short, FinalScore::Neutral),
        (FinalScore::Short, FinalScore::Short),
        (FinalScore::Neutral, FinalScore::Neutral),
        (FinalScore::Neutral, FinalScore::Long),
    ];
    let c = AccuracyCounts::compute(&pairs);
    assert_eq!(c.true_long, 1);
    assert_eq!(c.false_long, 1);
    assert_eq!(c.true_short, 2);
    assert_eq!(c.false_short, 1);
    assert_eq!(c.true_neutral, 1);
    assert_eq!(c.false_neutral, 1);
    assert_eq!(c.total, 7);
    assert_eq!(c.predicted_trades, 5);
}

#[test]
fn accuracy_counts_partition_the_samples() {
    let pairs = [(FinalScore::Neutral, FinalScore::Short), (FinalScore::Long, FinalScore::Long), (FinalScore::Short, FinalScore::Long), (FinalScore::Neutral, FinalScore::Neutral)];
    let c = AccuracyCounts::compute(&pairs);
    let sum = c.true_long + c.false_long + c.true_short + c.false_short + c.true_neutral
        + c.false_neutral;
    assert_eq!(sum, c.total);
    assert_eq!(c.predicted_trades, c.true_long + c.false_long + c.true_short + c.false_short);
}

#[test]
fn accuracy_counts_of_nothing() {
    let c = AccuracyCounts::compute(&[]);
    assert_eq!(c.total, 0);
    assert_eq!(c.predicted_trades, 0);
}

#[test]
fn precision_counts_of_mixed_outcomes() {
    let outcomes = [
        (Decision::Long, Decision::Long),
        (Decision::Long, Decision::Neutral),
        (Decision::Short, Decision::Short),
        (Decision::Neutral, Decision::Short),
        (Decision::Neutral, Decision::Neutral),
        (Decision::Long, Decision::Long),
    ];
    let c = PrecisionCounts::compute(&outcomes);
    assert_eq!((c.predicted_long, c.predicted_short, c.predicted_neutral), (3, 1, 2));
    assert_eq!((c.correct_long, c.correct_short, c.correct_neutral), (2, 1, 1));
    assert_eq!((c.target_long, c.target_short, c.target_neutral), (2, 2, 2));
    assert_eq!(c.correct_total(), 4);
}

#[test]
fn precision_counts_bounds() {
    let outcomes = [(Decision::Short, Decision::Long), (Decision::Short, Decision::Short), (Decision::Long, Decision::Short), (Decision::Neutral, Decision::Long)];
    let c = PrecisionCounts::compute(&outcomes);
    assert_eq!(c.predicted_long + c.predicted_short + c.predicted_neutral, outcomes.len());
    assert_eq!(c.target_long + c.target_short + c.target_neutral, outcomes.len());
    assert!(c.correct_short <= c.predicted_short && c.correct_short <= c.target_short);
    assert!(c.correct_long <= c.predicted_long && c.correct_long <= c.target_long);
}
