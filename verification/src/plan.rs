use vstd::prelude::*;

use crate::calendar::{
    add_naive_date, is_nth_trading_day_after, lemma_after_stays_none, lemma_nth_after_monotone,
    subtract_naive_date, trading_days_after, trading_days_before, CALENDAR_MARKET,
};
use crate::consts::{CANDLE_LOOK_BACK, TARGET_HORIZON};
use crate::data::{
    covers_trading_days, lemma_no_look_ahead, select_window, target_after_prediction,
    window_ending_at,
};

verus! {

/// One evaluation request: predict with data ending on `predict_end` and
/// compare against the data ending on `target_end`, for `ticker`.
#[derive(Clone, Debug)]
pub struct EvalSample {
    pub predict_end: i32,
    pub target_end: i32,
    pub ticker: String,
}

/// All evaluation requests, in order, together with the date range that the
/// data cache must cover to serve them.
#[derive(Clone, Debug)]
pub struct EvalPlan {
    pub samples: Vec<EvalSample>,
    pub absolute_start: i32,
    pub absolute_end: i32,
}

/// Trading days between the first sample and the evaluation end: the sample
/// count plus five, saturating.
pub open spec fn warmup_days(samples: nat) -> nat {
    if samples + 5 > usize::MAX {
        usize::MAX as nat
    } else {
        samples + 5
    }
}

/// The day of the first sample: `warmup_days` trading days before `end`.
pub open spec fn first_sample_day(end: int, samples: nat) -> Option<int> {
    trading_days_before(CALENDAR_MARKET, end, warmup_days(samples))
}

/// The day on which the prediction data of sample `i` ends.
pub open spec fn sample_day(first: int, i: nat) -> int {
    trading_days_after(CALENDAR_MARKET, first, i)->0
}

/// The day on which the target data of sample `i` ends: the target horizon
/// after the sample's day.
pub open spec fn target_day(first: int, i: nat) -> int {
    trading_days_after(CALENDAR_MARKET, sample_day(first, i), TARGET_HORIZON as nat)->0
}

/// True when every date of the plan stays inside the calendar range.
pub open spec fn plan_feasible(end: int, samples: nat) -> bool {
    match first_sample_day(end, samples) {
        None => false,
        Some(first) => {
            &&& trading_days_after(CALENDAR_MARKET, first, samples) is Some
            &&& forall|i: nat|
                i < samples ==> #[trigger] trading_days_after(
                    CALENDAR_MARKET,
                    sample_day(first, i),
                    TARGET_HORIZON as nat,
                ) is Some
            &&& trading_days_before(CALENDAR_MARKET, first, CANDLE_LOOK_BACK as nat) is Some
        },
    }
}

/// The `k`-th request of the plan: sample `k / n` for ticker `k % n`, where
/// `n` is the number of tickers.
pub open spec fn eval_sample_matches(first: int, tickers: Seq<String>, e: EvalSample, k: int) -> bool {
    let n = tickers.len() as int;
    &&& e.predict_end == sample_day(first, (k / n) as nat)
    &&& e.target_end == target_day(first, (k / n) as nat)
    &&& e.ticker@ == tickers[k % n]@
}

proof fn lemma_after_step(first: int, i: nat, t: int)
    requires
        trading_days_after(CALENDAR_MARKET, first, i) == Some(t),
    ensures
        trading_days_after(CALENDAR_MARKET, first, i + 1) == trading_days_after(
            CALENDAR_MARKET,
            t,
            1,
        ),
{
    reveal_with_fuel(trading_days_after, 2);
}

proof fn lemma_flat_index(i: int, j: int, n: int)
    requires
        0 <= i,
        0 <= j < n,
    ensures
        (i * n + j) / n == i,
        (i * n + j) % n == j,
{
    vstd::arithmetic::div_mod::lemma_fundamental_div_mod_converse(i * n + j, n, i, j);
}

impl EvalSample {
    /// Selects, within the bar days of this sample's ticker, the index
    /// windows of its prediction data (`CANDLE_LOOK_BACK` bars ending at
    /// `predict_end`) and of its target data (`TARGET_HORIZON` bars ending at
    /// `target_end`). `None` when the bars cannot serve one of them.
    pub fn windows(&self, bar_days: &[i32]) -> (r: Option<((usize, usize), (usize, usize))>)
        ensures
            match r {
                Some(((ps, pe), (ts, te))) => {
                    &&& window_ending_at(
                        bar_days@,
                        self.predict_end as int,
                        CANDLE_LOOK_BACK as int,
                    ) == Some((ps as int, pe as int))
                    &&& window_ending_at(bar_days@, self.target_end as int, TARGET_HORIZON as int)
                        == Some((ts as int, te as int))
                },
                None => window_ending_at(
                    bar_days@,
                    self.predict_end as int,
                    CANDLE_LOOK_BACK as int,
                ) is None || window_ending_at(
                    bar_days@,
                    self.target_end as int,
                    TARGET_HORIZON as int,
                ) is None,
            },
    {
        let predict = match select_window(bar_days, self.predict_end, CANDLE_LOOK_BACK) {
            Some(w) => w,
            None => return None,
        };
        let target = match select_window(bar_days, self.target_end, TARGET_HORIZON) {
            Some(w) => w,
            None => return None,
        };
        Some((predict, target))
    }
}

impl EvalPlan {
    /// Builds the evaluation requests for `samples` consecutive trading days
    /// ending five trading days plus the sample count before `end`, one
    /// request per sample and ticker in that order, together with the range
    /// the data must cover: from the look-back before the first sample to the
    /// target of the last one.
    ///
    /// Returns `None` exactly when some date of the plan leaves the calendar
    /// range.
    ///
    /// Whatever bars hold exactly the trading days of that range, each
    /// request's target window (the `TARGET_HORIZON` bars ending on its
    /// target day) exists and lies after its prediction day, and its
    /// prediction window ends before the target window begins: no look-ahead.
    pub fn build(end: i32, samples: usize, tickers: &Vec<String>) -> (r: Option<EvalPlan>)
        ensures
            match r {
                None => !plan_feasible(end as int, samples as nat),
                Some(p) => {
                    let first = first_sample_day(end as int, samples as nat)->0;
                    &&& plan_feasible(end as int, samples as nat)
                    &&& p.samples@.len() == samples * tickers@.len()
                    &&& forall|k: int|
                        0 <= k < p.samples@.len() ==> eval_sample_matches(
                            first,
                            tickers@,
                            #[trigger] p.samples@[k],
                            k,
                        )
                    &&& p.absolute_start == trading_days_before(
                        CALENDAR_MARKET,
                        first,
                        CANDLE_LOOK_BACK as nat,
                    )->0
                    &&& p.absolute_end == if samples == 0 {
                        first
                    } else {
                        target_day(first, (samples - 1) as nat)
                    }
                    &&& first < end
                    &&& p.absolute_start < first
                    &&& forall|i: nat, j: nat|
                        i < j < samples ==> #[trigger] sample_day(first, i) < #[trigger] sample_day(
                            first,
                            j,
                        )
                    &&& forall|i: nat|
                        i < samples ==> first <= #[trigger] sample_day(first, i) < target_day(
                            first,
                            i,
                        )
                    &&& forall|k: int|
                        0 <= k < p.samples@.len() ==> is_nth_trading_day_after(
                            CALENDAR_MARKET,
                            #[trigger] p.samples@[k].predict_end as int,
                            TARGET_HORIZON as nat,
                            p.samples@[k].target_end as int,
                        )
                    &&& forall|k: int|
                        0 <= k < p.samples@.len() ==> p.absolute_start
                            < #[trigger] p.samples@[k].predict_end && p.samples@[k].target_end
                            <= p.absolute_end
                    &&& forall|days: Seq<i32>, k: int|
                        #![trigger covers_trading_days(days, p.absolute_start as int, p.absolute_end as int), p.samples@[k]]
                        covers_trading_days(days, p.absolute_start as int, p.absolute_end as int)
                            && 0 <= k < p.samples@.len() ==> target_after_prediction(
                            days,
                            p.samples@[k].predict_end as int,
                            p.samples@[k].target_end as int,
                            TARGET_HORIZON as int,
                            CANDLE_LOOK_BACK as int,
                        )
                },
            },
    {
        let warmup = samples.saturating_add(5);
        let first = match subtract_naive_date(end, warmup) {
            Some(d) => d,
            None => return None,
        };
        let n_t = tickers.len();
        let mut t = first;
        let mut last_target_end = first;
        let mut out: Vec<EvalSample> = Vec::new();
        let ghost mut prev_t: i32 = first;
        let mut i: usize = 0;
        while i < samples
            invariant
                i <= samples,
                n_t == tickers@.len(),
                first_sample_day(end as int, samples as nat) == Some(first as int),
                trading_days_after(CALENDAR_MARKET, first as int, i as nat) == Some(t as int),
                out@.len() == i * n_t,
                forall|k: int|
                    0 <= k < out@.len() ==> eval_sample_matches(
                        first as int,
                        tickers@,
                        #[trigger] out@[k],
                        k,
                    ),
                forall|m: nat|
                    m < i ==> #[trigger] trading_days_after(
                        CALENDAR_MARKET,
                        sample_day(first as int, m),
                        TARGET_HORIZON as nat,
                    ) is Some,
                last_target_end == if i == 0 {
                    first as int
                } else {
                    target_day(first as int, (i - 1) as nat)
                },
                first < end,
                first <= t,
                forall|m: nat| m < i ==> #[trigger] sample_day(first as int, m) < t,
                forall|m: nat, q: nat|
                    m < q < i ==> #[trigger] sample_day(first as int, m) < #[trigger] sample_day(
                        first as int,
                        q,
                    ),
                forall|m: nat|
                    m < i ==> first <= #[trigger] sample_day(first as int, m) < target_day(
                        first as int,
                        m,
                    ),
                forall|k: int|
                    0 <= k < out@.len() ==> is_nth_trading_day_after(
                        CALENDAR_MARKET,
                        #[trigger] out@[k].predict_end as int,
                        TARGET_HORIZON as nat,
                        out@[k].target_end as int,
                    ),
                forall|k: int|
                    0 <= k < out@.len() ==> first <= #[trigger] out@[k].predict_end
                        && out@[k].target_end <= last_target_end,
                i > 0 ==> prev_t < t && is_nth_trading_day_after(
                    CALENDAR_MARKET,
                    prev_t as int,
                    TARGET_HORIZON as nat,
                    last_target_end as int,
                ),
            decreases samples - i,
        {
            let target_end = match add_naive_date(t, TARGET_HORIZON) {
                Some(d) => d,
                None => {
                    assert(sample_day(first as int, i as nat) == t);
                    return None;
                },
            };
            assert(sample_day(first as int, i as nat) == t);
            assert(target_day(first as int, i as nat) == target_end);
            proof {
                if i > 0 {
                    lemma_nth_after_monotone(
                        CALENDAR_MARKET,
                        prev_t as int,
                        t as int,
                        TARGET_HORIZON as nat,
                        last_target_end as int,
                        target_end as int,
                    );
                }
            }
            last_target_end = target_end;
            let mut j: usize = 0;
            while j < n_t
                invariant
                    i < samples,
                    j <= n_t,
                    n_t == tickers@.len(),
                    sample_day(first as int, i as nat) == t,
                    target_day(first as int, i as nat) == target_end,
                    is_nth_trading_day_after(
                        CALENDAR_MARKET,
                        t as int,
                        TARGET_HORIZON as nat,
                        target_end as int,
                    ),
                    forall|k: int|
                        0 <= k < out@.len() ==> is_nth_trading_day_after(
                            CALENDAR_MARKET,
                            #[trigger] out@[k].predict_end as int,
                            TARGET_HORIZON as nat,
                            out@[k].target_end as int,
                        ),
                    out@.len() == i * n_t + j,
                    first <= t,
                    forall|k: int|
                        0 <= k < out@.len() ==> first <= #[trigger] out@[k].predict_end
                            && out@[k].target_end <= target_end,
                    forall|k: int|
                        0 <= k < out@.len() ==> eval_sample_matches(
                            first as int,
                            tickers@,
                            #[trigger] out@[k],
                            k,
                        ),
                decreases n_t - j,
            {
                let ticker = tickers[j].clone();
                let ghost k = i * n_t + j;
                proof {
                    lemma_flat_index(i as int, j as int, n_t as int);
                }
                out.push(EvalSample { predict_end: t, target_end, ticker });
                assert(eval_sample_matches(first as int, tickers@, out@[k], k));
                j = j + 1;
            }
            proof {
                assert((i + 1) * n_t == i * n_t + n_t) by (nonlinear_arith);
            }
            let next = match add_naive_date(t, 1) {
                Some(d) => d,
                None => {
                    proof {
                        lemma_after_step(first as int, i as nat, t as int);
                        lemma_after_stays_none(CALENDAR_MARKET, first as int, (i + 1) as nat, samples as nat);
                    }
                    return None;
                },
            };
            proof {
                lemma_after_step(first as int, i as nat, t as int);
                assert(sample_day(first as int, (i + 1) as nat) == next);
                prev_t = t;
            }
            t = next;
            i = i + 1;
        }
        let absolute_start = match subtract_naive_date(first, CANDLE_LOOK_BACK) {
            Some(d) => d,
            None => return None,
        };
        assert forall|days: Seq<i32>, k: int|
            covers_trading_days(days, absolute_start as int, last_target_end as int) && 0 <= k
                < out@.len() implies #[trigger] target_after_prediction(
            days,
            out@[k].predict_end as int,
            out@[k].target_end as int,
            TARGET_HORIZON as int,
            CANDLE_LOOK_BACK as int,
        ) by {
            lemma_no_look_ahead(
                days,
                absolute_start as int,
                last_target_end as int,
                out@[k].predict_end as int,
                TARGET_HORIZON as nat,
                out@[k].target_end as int,
                CANDLE_LOOK_BACK as int,
            );
        }
        Some(EvalPlan { samples: out, absolute_start, absolute_end: last_target_end })
    }
}

} // verus!
