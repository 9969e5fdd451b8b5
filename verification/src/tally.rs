use vstd::prelude::*;

use crate::signal::{Decision, FinalScore};

verus! {

/// Number of elements of `s` that satisfy `p`.
pub open spec fn count_where<A>(s: Seq<A>, p: spec_fn(A) -> bool) -> nat
    decreases s.len(),
{
    if s.len() == 0 {
        0
    } else {
        count_where(s.drop_last(), p) + if p(s.last()) {
            1nat
        } else {
            0nat
        }
    }
}

/// A pair (prediction, realised target) of final score classifications.
pub type ScorePair = (FinalScore, FinalScore);

/// A pair (prediction, realised target) of trading decisions.
pub type DecisionPair = (Decision, Decision);

pub open spec fn pred_is(f: FinalScore) -> spec_fn(ScorePair) -> bool {
    |x: ScorePair| x.0 == f
}

pub open spec fn hit_is(f: FinalScore) -> spec_fn(ScorePair) -> bool {
    |x: ScorePair| x.0 == f && x.1 == f
}

pub open spec fn miss_is(f: FinalScore) -> spec_fn(ScorePair) -> bool {
    |x: ScorePair| x.0 == f && x.1 != f
}

pub open spec fn trade_predicted() -> spec_fn(ScorePair) -> bool {
    |x: ScorePair| x.0 != FinalScore::Neutral
}

pub open spec fn predicted_is(d: Decision) -> spec_fn(DecisionPair) -> bool {
    |x: DecisionPair| x.0 == d
}

pub open spec fn target_is(d: Decision) -> spec_fn(DecisionPair) -> bool {
    |x: DecisionPair| x.1 == d
}

pub open spec fn correct_is(d: Decision) -> spec_fn(DecisionPair) -> bool {
    |x: DecisionPair| x.0 == d && x.1 == d
}

/// Confusion counts of predicted against realised final scores.
#[derive(Clone, Copy, Debug, PartialEq, Eq, Structural)]
pub struct AccuracyCounts {
    pub true_long: usize,
    pub false_long: usize,
    pub true_short: usize,
    pub false_short: usize,
    pub true_neutral: usize,
    pub false_neutral: usize,
    pub total: usize,
    pub predicted_trades: usize,
}

/// The confusion counts that [AccuracyCounts::compute] gives for `s`.
pub open spec fn accuracy_counts_of(s: Seq<ScorePair>, c: AccuracyCounts) -> bool {
    &&& c.true_long == count_where(s, hit_is(FinalScore::Long))
    &&& c.false_long == count_where(s, miss_is(FinalScore::Long))
    &&& c.true_short == count_where(s, hit_is(FinalScore::Short))
    &&& c.false_short == count_where(s, miss_is(FinalScore::Short))
    &&& c.true_neutral == count_where(s, hit_is(FinalScore::Neutral))
    &&& c.false_neutral == count_where(s, miss_is(FinalScore::Neutral))
    &&& c.total == s.len()
    &&& c.predicted_trades == count_where(s, trade_predicted())
}

proof fn lemma_take_step<A>(s: Seq<A>, i: int)
    requires
        0 <= i < s.len(),
    ensures
        s.take(i + 1).drop_last() == s.take(i),
        s.take(i + 1).last() == s[i],
{
    assert(s.take(i + 1).drop_last() =~= s.take(i));
}

impl AccuracyCounts {
    /// Tallies the predicted against the realised classification of each
    /// sample: true/false hits per predicted class, the number of samples and
    /// the number of predictions that take a trade.
    pub fn compute(predictions: &[ScorePair]) -> (c: AccuracyCounts)
        ensures
            accuracy_counts_of(predictions@, c),
    {
        let mut c = AccuracyCounts {
            true_long: 0,
            false_long: 0,
            true_short: 0,
            false_short: 0,
            true_neutral: 0,
            false_neutral: 0,
            total: 0,
            predicted_trades: 0,
        };
        let n = predictions.len();
        let ghost s = predictions@;
        assert(s.take(0) =~= Seq::<ScorePair>::empty());
        for i in 0..n
            invariant
                n == s.len(),
                s == predictions@,
                accuracy_counts_of(s.take(i as int), c),
                c.true_long <= i,
                c.false_long <= i,
                c.true_short <= i,
                c.false_short <= i,
                c.true_neutral <= i,
                c.false_neutral <= i,
                c.predicted_trades <= i,
        {
            proof {
                lemma_take_step(s, i as int);
            }
            let (p, t) = predictions[i];
            c.total = c.total + 1;
            if p.is_trade() {
                c.predicted_trades = c.predicted_trades + 1;
            }
            match (p, t) {
                (FinalScore::Long, FinalScore::Long) => {
                    c.true_long = c.true_long + 1;
                },
                (FinalScore::Long, _) => {
                    c.false_long = c.false_long + 1;
                },
                (FinalScore::Short, FinalScore::Short) => {
                    c.true_short = c.true_short + 1;
                },
                (FinalScore::Short, _) => {
                    c.false_short = c.false_short + 1;
                },
                (FinalScore::Neutral, FinalScore::Neutral) => {
                    c.true_neutral = c.true_neutral + 1;
                },
                (FinalScore::Neutral, _) => {
                    c.false_neutral = c.false_neutral + 1;
                },
            }
        }
        assert(s.take(n as int) =~= s);
        c
    }
}

/// Every sample falls in exactly one of the six confusion cells, and the
/// predicted trades are exactly the long and short predictions.
pub proof fn lemma_accuracy_partition(s: Seq<ScorePair>)
    ensures
        count_where(s, hit_is(FinalScore::Long)) + count_where(s, miss_is(FinalScore::Long))
            + count_where(s, hit_is(FinalScore::Short)) + count_where(s, miss_is(FinalScore::Short))
            + count_where(s, hit_is(FinalScore::Neutral)) + count_where(
            s,
            miss_is(FinalScore::Neutral),
        ) == s.len(),
        count_where(s, trade_predicted()) == count_where(s, hit_is(FinalScore::Long))
            + count_where(s, miss_is(FinalScore::Long)) + count_where(s, hit_is(FinalScore::Short))
            + count_where(s, miss_is(FinalScore::Short)),
    decreases s.len(),
{
    if s.len() > 0 {
        lemma_accuracy_partition(s.drop_last());
    }
}

/// Per-class counts of predicted decisions, realised decisions and correct
/// predictions.
#[derive(Clone, Copy, Debug, PartialEq, Eq, Structural)]
pub struct PrecisionCounts {
    pub predicted_long: usize,
    pub predicted_short: usize,
    pub predicted_neutral: usize,
    pub correct_long: usize,
    pub correct_short: usize,
    pub correct_neutral: usize,
    pub target_long: usize,
    pub target_short: usize,
    pub target_neutral: usize,
}

/// The counts that [PrecisionCounts::compute] gives for `s`.
pub open spec fn precision_counts_of(s: Seq<DecisionPair>, c: PrecisionCounts) -> bool {
    &&& c.predicted_long == count_where(s, predicted_is(Decision::Long))
    &&& c.predicted_short == count_where(s, predicted_is(Decision::Short))
    &&& c.predicted_neutral == count_where(s, predicted_is(Decision::Neutral))
    &&& c.correct_long == count_where(s, correct_is(Decision::Long))
    &&& c.correct_short == count_where(s, correct_is(Decision::Short))
    &&& c.correct_neutral == count_where(s, correct_is(Decision::Neutral))
    &&& c.target_long == count_where(s, target_is(Decision::Long))
    &&& c.target_short == count_where(s, target_is(Decision::Short))
    &&& c.target_neutral == count_where(s, target_is(Decision::Neutral))
}

impl PrecisionCounts {
    /// Tallies, per decision class, how often it was predicted, how often it
    /// was the realised outcome, and how often the prediction was correct.
    pub fn compute(outcomes: &[DecisionPair]) -> (c: PrecisionCounts)
        ensures
            precision_counts_of(outcomes@, c),
    {
        let mut c = PrecisionCounts {
            predicted_long: 0,
            predicted_short: 0,
            predicted_neutral: 0,
            correct_long: 0,
            correct_short: 0,
            correct_neutral: 0,
            target_long: 0,
            target_short: 0,
            target_neutral: 0,
        };
        let n = outcomes.len();
        let ghost s = outcomes@;
        assert(s.take(0) =~= Seq::<DecisionPair>::empty());
        for i in 0..n
            invariant
                n == s.len(),
                s == outcomes@,
                precision_counts_of(s.take(i as int), c),
                c.predicted_long <= i,
                c.predicted_short <= i,
                c.predicted_neutral <= i,
                c.correct_long <= i,
                c.correct_short <= i,
                c.correct_neutral <= i,
                c.target_long <= i,
                c.target_short <= i,
                c.target_neutral <= i,
        {
            proof {
                lemma_take_step(s, i as int);
            }
            let (pred, target) = outcomes[i];
            match pred {
                Decision::Long => c.predicted_long = c.predicted_long + 1,
                Decision::Short => c.predicted_short = c.predicted_short + 1,
                Decision::Neutral => c.predicted_neutral = c.predicted_neutral + 1,
            }
            match target {
                Decision::Long => c.target_long = c.target_long + 1,
                Decision::Short => c.target_short = c.target_short + 1,
                Decision::Neutral => c.target_neutral = c.target_neutral + 1,
            }
            if pred == target {
                match pred {
                    Decision::Long => c.correct_long = c.correct_long + 1,
                    Decision::Short => c.correct_short = c.correct_short + 1,
                    Decision::Neutral => c.correct_neutral = c.correct_neutral + 1,
                }
            }
        }
        assert(s.take(n as int) =~= s);
        c
    }

    /// Total number of correct predictions over all classes.
    pub fn correct_total(&self) -> (n: usize)
        requires
            self.correct_long + self.correct_short + self.correct_neutral <= usize::MAX,
        ensures
            n == self.correct_long + self.correct_short + self.correct_neutral,
    {
        self.correct_long + self.correct_short + self.correct_neutral
    }
}

/// Predicted classes and realised classes each partition the samples, and a
/// class is never correct more often than it was predicted or realised.
pub proof fn lemma_precision_partition(s: Seq<DecisionPair>)
    ensures
        count_where(s, predicted_is(Decision::Long)) + count_where(s, predicted_is(Decision::Short))
            + count_where(s, predicted_is(Decision::Neutral)) == s.len(),
        count_where(s, target_is(Decision::Long)) + count_where(s, target_is(Decision::Short))
            + count_where(s, target_is(Decision::Neutral)) == s.len(),
        forall|d: Decision|
            #![trigger correct_is(d)]
            count_where(s, correct_is(d)) <= count_where(s, predicted_is(d)) && count_where(
                s,
                correct_is(d),
            ) <= count_where(s, target_is(d)),
    decreases s.len(),
{
    if s.len() > 0 {
        lemma_precision_partition(s.drop_last());
    }
}

/// Counting over one more sample adds one exactly when the sample is
/// counted.
proof fn lemma_count_push<A>(s: Seq<A>, x: A, p: spec_fn(A) -> bool)
    ensures
        count_where(s.push(x), p) == count_where(s, p) + if p(x) {
            1nat
        } else {
            0nat
        },
{
    assert(s.push(x).drop_last() =~= s);
}

/// No sample, no counts; and one more sample `(p, t)` adds one true long
/// exactly when both are long and one false long exactly when only the
/// prediction is long (likewise for short and neutral), one to the total,
/// and one predicted trade exactly when the prediction is not neutral.
pub proof fn lemma_accuracy_counts_step(
    s: Seq<ScorePair>,
    x: ScorePair,
    c: AccuracyCounts,
    c2: AccuracyCounts,
)
    requires
        accuracy_counts_of(s, c),
        accuracy_counts_of(s.push(x), c2),
    ensures
        c2.true_long == c.true_long + if x.0 == FinalScore::Long && x.1 == FinalScore::Long {
            1int
        } else {
            0int
        },
        c2.false_long == c.false_long + if x.0 == FinalScore::Long && x.1 != FinalScore::Long {
            1int
        } else {
            0int
        },
        c2.true_short == c.true_short + if x.0 == FinalScore::Short && x.1 == FinalScore::Short {
            1int
        } else {
            0int
        },
        c2.false_short == c.false_short + if x.0 == FinalScore::Short && x.1
            != FinalScore::Short {
            1int
        } else {
            0int
        },
        c2.true_neutral == c.true_neutral + if x.0 == FinalScore::Neutral && x.1
            == FinalScore::Neutral {
            1int
        } else {
            0int
        },
        c2.false_neutral == c.false_neutral + if x.0 == FinalScore::Neutral && x.1
            != FinalScore::Neutral {
            1int
        } else {
            0int
        },
        c2.total == c.total + 1,
        c2.predicted_trades == c.predicted_trades + if x.0 != FinalScore::Neutral {
            1int
        } else {
            0int
        },
        accuracy_counts_of(Seq::empty(), c) ==> c.true_long == 0 && c.false_long == 0
            && c.true_short == 0 && c.false_short == 0 && c.true_neutral == 0 && c.false_neutral
            == 0 && c.total == 0 && c.predicted_trades == 0,
{
    lemma_count_push(s, x, hit_is(FinalScore::Long));
    lemma_count_push(s, x, miss_is(FinalScore::Long));
    lemma_count_push(s, x, hit_is(FinalScore::Short));
    lemma_count_push(s, x, miss_is(FinalScore::Short));
    lemma_count_push(s, x, hit_is(FinalScore::Neutral));
    lemma_count_push(s, x, miss_is(FinalScore::Neutral));
    lemma_count_push(s, x, trade_predicted());
}

/// No sample, no counts; and one more sample `(p, t)` adds one prediction of
/// `p`, one target of `t`, and one correct prediction of `p` exactly when
/// `p == t`: a prediction that differs from its target is never correct.
pub proof fn lemma_precision_counts_step(
    s: Seq<DecisionPair>,
    x: DecisionPair,
    c: PrecisionCounts,
    c2: PrecisionCounts,
)
    requires
        precision_counts_of(s, c),
        precision_counts_of(s.push(x), c2),
    ensures
        c2.predicted_long == c.predicted_long + if x.0 == Decision::Long {
            1int
        } else {
            0int
        },
        c2.predicted_short == c.predicted_short + if x.0 == Decision::Short {
            1int
        } else {
            0int
        },
        c2.predicted_neutral == c.predicted_neutral + if x.0 == Decision::Neutral {
            1int
        } else {
            0int
        },
        c2.target_long == c.target_long + if x.1 == Decision::Long {
            1int
        } else {
            0int
        },
        c2.target_short == c.target_short + if x.1 == Decision::Short {
            1int
        } else {
            0int
        },
        c2.target_neutral == c.target_neutral + if x.1 == Decision::Neutral {
            1int
        } else {
            0int
        },
        c2.correct_long == c.correct_long + if x.0 == Decision::Long && x.1 == Decision::Long {
            1int
        } else {
            0int
        },
        c2.correct_short == c.correct_short + if x.0 == Decision::Short && x.1 == Decision::Short {
            1int
        } else {
            0int
        },
        c2.correct_neutral == c.correct_neutral + if x.0 == Decision::Neutral && x.1
            == Decision::Neutral {
            1int
        } else {
            0int
        },
        x.0 != x.1 ==> c2.correct_long == c.correct_long && c2.correct_short == c.correct_short
            && c2.correct_neutral == c.correct_neutral,
        precision_counts_of(Seq::empty(), c) ==> c.predicted_long == 0 && c.predicted_short == 0
            && c.predicted_neutral == 0 && c.target_long == 0 && c.target_short == 0
            && c.target_neutral == 0 && c.correct_long == 0 && c.correct_short == 0
            && c.correct_neutral == 0,
{
    lemma_count_push(s, x, predicted_is(Decision::Long));
    lemma_count_push(s, x, predicted_is(Decision::Short));
    lemma_count_push(s, x, predicted_is(Decision::Neutral));
    lemma_count_push(s, x, target_is(Decision::Long));
    lemma_count_push(s, x, target_is(Decision::Short));
    lemma_count_push(s, x, target_is(Decision::Neutral));
    lemma_count_push(s, x, correct_is(Decision::Long));
    lemma_count_push(s, x, correct_is(Decision::Short));
    lemma_count_push(s, x, correct_is(Decision::Neutral));
}

} // verus!
