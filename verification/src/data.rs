use vstd::prelude::*;

use crate::calendar::{
    add_naive_date, is_nth_trading_day_after, lemma_no_trading_days, lemma_trading_days_split,
    parse_naive_date, spec_is_trading_day, spec_parse_date, subtract_naive_date, trading_days_after,
    trading_days_before, trading_days_in, CALENDAR_MARKET, CHRONO_FORMAT,
};
use crate::text::{push_signed_decimal, push_two_digits, signed_decimal, two_digits};

verus! {

/// A key used to identify stock data.
#[derive(Clone, Debug, PartialEq, PartialOrd)]
pub struct DataKey {
    /// The size of the associated stock data.
    pub size: usize,
    /// The end date of the associated stock data.
    pub end: String,
    /// The ticker of the associated stock data.
    pub ticker: String,
}

/// The `dd.mm.yyyy` label of a candle date: day and month zero-padded to two
/// digits, the year in plain decimal.
pub open spec fn candle_date_label(day: nat, month: nat, year: int) -> Seq<char> {
    two_digits(day) + seq!['.'] + two_digits(month) + seq!['.'] + signed_decimal(year)
}

/// Builds the `dd.mm.yyyy` label of a candle date.
pub fn candle_date_text(day: u32, month: u32, year: i32) -> (s: String)
    ensures
        s@ == candle_date_label(day as nat, month as nat, year as int),
{
    let mut s = String::new();
    push_two_digits(&mut s, day);
    proof { reveal_strlit("."); }
    s.append(".");
    push_two_digits(&mut s, month);
    s.append(".");
    push_signed_decimal(&mut s, year);
    s
}

/// The days a request for `key`'s data spans: from `size` trading days before
/// the key's end date up to the trading day after it (the service's end
/// bound is exclusive). `None` when the end date does not parse or a step
/// leaves the calendar range.
pub open spec fn request_span(end: Seq<char>, size: nat) -> Option<(int, int)> {
    match spec_parse_date(end, CHRONO_FORMAT@) {
        None => None,
        Some(e) => match (
            trading_days_before(CALENDAR_MARKET, e, size),
            trading_days_after(CALENDAR_MARKET, e, 1),
        ) {
            (Some(start), Some(after)) => Some((start, after)),
            _ => None,
        },
    }
}

impl DataKey {
    /// The first day and the exclusive last day of the data request for this
    /// key.
    pub fn request_days(&self) -> (r: Option<(i32, i32)>)
        ensures
            match r {
                Some((s, e)) => request_span(self.end@, self.size as nat) == Some(
                    (s as int, e as int),
                ),
                None => request_span(self.end@, self.size as nat) is None,
            },
    {
        let end = match parse_naive_date(self.end.as_str()) {
            Some(d) => d,
            None => return None,
        };
        let start = match subtract_naive_date(end, self.size) {
            Some(d) => d,
            None => return None,
        };
        let after = match add_naive_date(end, 1) {
            Some(d) => d,
            None => return None,
        };
        Some((start, after))
    }

    /// Returns true if the candle dated `day`.`month`.`year` is the one this
    /// key asks to end on, i.e. its `dd.mm.yyyy` label equals the key's end.
    pub fn ends_on(&self, day: u32, month: u32, year: i32) -> (b: bool)
        ensures
            b == (self.end@ == candle_date_label(day as nat, month as nat, year as int)),
    {
        let label = candle_date_text(day, month, year);
        label == self.end
    }
}

/// Index of the last bar dated on or before `end`, if any.
pub open spec fn last_on_or_before(days: Seq<i32>, end: int) -> Option<int>
    decreases days.len(),
{
    if days.len() == 0 {
        None
    } else if days.last() <= end {
        Some(days.len() - 1)
    } else {
        last_on_or_before(days.drop_last(), end)
    }
}

/// The inclusive index range of the `size` bars that end with the last bar
/// dated on or before `end`, or `None` if there is no such bar or fewer than
/// `size` bars lead up to it.
pub open spec fn window_ending_at(days: Seq<i32>, end: int, size: int) -> Option<(int, int)> {
    match last_on_or_before(days, end) {
        None => None,
        Some(e) => if e + 1 >= size {
            Some((e + 1 - size, e))
        } else {
            None
        },
    }
}

proof fn lemma_last_on_or_before_none(days: Seq<i32>, end: int, i: int)
    requires
        0 <= i <= days.len(),
        forall|j: int| i <= j < days.len() ==> #[trigger] days[j] > end,
    ensures
        last_on_or_before(days, end) == last_on_or_before(days.take(i), end),
    decreases days.len() - i,
{
    if i < days.len() {
        assert(days.drop_last().take(i) =~= days.take(i));
        lemma_last_on_or_before_none(days.drop_last(), end, i);
    } else {
        assert(days.take(i) =~= days);
    }
}

/// Selects, within bars ordered as they are cached, the window of `size`
/// bars ending at the last bar dated on or before `end_day`.
///
/// Returns the inclusive index range `(start, end)` of that window, or `None`
/// when no bar is dated on or before `end_day` or when fewer than `size`
/// bars lead up to it.
pub fn select_window(bar_days: &[i32], end_day: i32, size: usize) -> (r: Option<(usize, usize)>)
    requires
        size >= 1,
    ensures
        match r {
            Some((s, e)) => window_ending_at(bar_days@, end_day as int, size as int) == Some(
                (s as int, e as int),
            ),
            None => window_ending_at(bar_days@, end_day as int, size as int) is None,
        },
{
    let n = bar_days.len();
    let mut i = n;
    while i > 0
        invariant
            i <= n,
            n == bar_days@.len(),
            size >= 1,
            forall|j: int| i <= j < n ==> #[trigger] bar_days@[j] > end_day,
        decreases i,
    {
        if bar_days[i - 1] <= end_day {
            proof {
                lemma_last_on_or_before_none(bar_days@, end_day as int, i as int);
                assert(bar_days@.take(i as int).last() == bar_days@[i - 1]);
            }
            let last = i - 1;
            let start = last.saturating_sub(size - 1);
            if last - start + 1 < size {
                return None;
            }
            return Some((start, last));
        }
        i = i - 1;
    }
    proof {
        lemma_last_on_or_before_none(bar_days@, end_day as int, 0);
    }
    None
}

/// True when `days` holds exactly the trading days of the algorithm's market
/// from `lo` to `hi`, each once and in increasing order: the bar days of a
/// ticker whose data was fetched for that range.
pub open spec fn covers_trading_days(days: Seq<i32>, lo: int, hi: int) -> bool {
    &&& forall|i: int, j: int| 0 <= i < j < days.len() ==> #[trigger] days[i] < #[trigger] days[j]
    &&& forall|j: int|
        0 <= j < days.len() ==> lo <= #[trigger] days[j] <= hi && spec_is_trading_day(
            CALENDAR_MARKET,
            days[j] as int,
        )
    &&& forall|k: int|
        lo <= k <= hi && #[trigger] spec_is_trading_day(CALENDAR_MARKET, k) ==> exists|j: int|
            0 <= j < days.len() && days[j] == k
}

/// What `last_on_or_before` finds: the last index whose day is on or before
/// `end`, every later day being after it.
proof fn lemma_last_on_or_before(days: Seq<i32>, end: int)
    ensures
        match last_on_or_before(days, end) {
            Some(e) => {
                &&& 0 <= e < days.len()
                &&& days[e] <= end
                &&& forall|j: int| e < j < days.len() ==> #[trigger] days[j] > end
            },
            None => forall|j: int| 0 <= j < days.len() ==> #[trigger] days[j] > end,
        },
    decreases days.len(),
{
    if days.len() > 0 && days.last() > end {
        lemma_last_on_or_before(days.drop_last(), end);
        assert forall|j: int| 0 <= j < days.len() - 1 implies days.drop_last()[j] == #[trigger] days[j] by {}
    }
}

/// In covering bar days, the index distance of two bars is the number of
/// trading days from the first bar's day (exclusive) to the second's.
proof fn lemma_index_distance(days: Seq<i32>, lo: int, hi: int, i: int, j: int)
    requires
        covers_trading_days(days, lo, hi),
        0 <= i <= j < days.len(),
    ensures
        trading_days_in(CALENDAR_MARKET, days[i] as int, days[j] as int) == j - i,
    decreases j - i,
{
    if j > i {
        lemma_index_distance(days, lo, hi, i, j - 1);
        let a = days[j - 1] as int;
        let b = days[j] as int;
        assert(a < b);
        assert forall|k: int| a < k < b implies !#[trigger] spec_is_trading_day(CALENDAR_MARKET, k) by {
            if spec_is_trading_day(CALENDAR_MARKET, k) {
                assert(lo <= days[i] && days[j] <= hi);
                let m = choose|m: int| 0 <= m < days.len() && days[m] == k;
                if m < j - 1 {
                    assert(days[m] < days[j - 1]);
                } else if m > j {
                    assert(days[j] < days[m]);
                }
            }
        }
        lemma_no_trading_days(CALENDAR_MARKET, a, b - 1);
        assert(spec_is_trading_day(CALENDAR_MARKET, b));
        assert(trading_days_in(CALENDAR_MARKET, a, b) == 1);
        if i < j - 1 {
            assert(days[i] < days[j - 1]);
        }
        lemma_trading_days_split(CALENDAR_MARKET, days[i] as int, a, b);
    }
}

/// True when the window of `horizon` bars ending at `te` exists, ends on
/// `te` and lies wholly after `t`, and every window of `look_back` bars
/// ending at `t` lies on or before `t`, ending before the other begins.
pub open spec fn target_after_prediction(
    days: Seq<i32>,
    t: int,
    te: int,
    horizon: int,
    look_back: int,
) -> bool {
    &&& window_ending_at(days, te, horizon) matches Some((s, e)) && {
        &&& days[e] == te
        &&& forall|j: int| s <= j <= e ==> t < #[trigger] days[j] <= te
    }
    &&& window_ending_at(days, t, look_back) matches Some((ps, pe)) ==> {
        &&& forall|i: int| ps <= i <= pe ==> #[trigger] days[i] <= t
        &&& window_ending_at(days, te, horizon) matches Some((s, e)) && pe < s
    }
}

/// No look-ahead: take bars that hold exactly the trading days from `lo` to
/// `hi`, a day `t` on or after `lo`, and the `horizon`-th trading day `te`
/// after `t`, on or before `hi`. Then the window of `horizon` bars ending at
/// `te` exists, ends on `te` and lies wholly after `t`; and every window
/// ending at `t` lies on or before `t`, so it ends before the other begins.
pub proof fn lemma_no_look_ahead(
    days: Seq<i32>,
    lo: int,
    hi: int,
    t: int,
    horizon: nat,
    te: int,
    look_back: int,
)
    requires
        covers_trading_days(days, lo, hi),
        lo <= t,
        te <= hi,
        horizon >= 1,
        is_nth_trading_day_after(CALENDAR_MARKET, t, horizon, te),
    ensures
        target_after_prediction(days, t, te, horizon as int, look_back),
{
    let h = horizon as int;
    // te is a trading day in range, so some bar carries it: the last bar on
    // or before te.
    assert(lo <= te);
    let m = choose|m: int| 0 <= m < days.len() && days[m] == te;
    lemma_last_on_or_before(days, te);
    let e = last_on_or_before(days, te)->0;
    if e < m {
        assert(days[e] < days[m]);
    } else if e > m {
        assert(days[m] < days[e]);
    }
    assert(e == m);
    // At least `horizon` bars lead up to te.
    lemma_index_distance(days, lo, hi, 0, e);
    if e + 1 < h {
        let d0 = days[0] as int;
        if d0 <= t {
            lemma_trading_days_split(CALENDAR_MARKET, d0, t, te);
        } else {
            assert forall|k: int| t < k < d0 implies !#[trigger] spec_is_trading_day(
                CALENDAR_MARKET,
                k,
            ) by {
                if spec_is_trading_day(CALENDAR_MARKET, k) {
                    let q = choose|q: int| 0 <= q < days.len() && days[q] == k;
                    if q > 0 {
                        assert(days[0] < days[q]);
                    }
                }
            }
            lemma_no_trading_days(CALENDAR_MARKET, t, d0 - 1);
            assert(trading_days_in(CALENDAR_MARKET, t, d0) == 1);
            lemma_trading_days_split(CALENDAR_MARKET, t, d0, te);
        }
    }
    let s = e + 1 - h;
    assert(window_ending_at(days, te, h) == Some((s, e)));
    assert forall|j: int| s <= j <= e implies t < #[trigger] days[j] <= te by {
        lemma_index_distance(days, lo, hi, j, e);
        if j < e {
            assert(days[j] < days[e]);
        }
        if days[j] <= t {
            lemma_trading_days_split(CALENDAR_MARKET, days[j] as int, t, te);
        }
    }
    lemma_last_on_or_before(days, t);
    if let Some((ps, pe)) = window_ending_at(days, t, look_back) {
        assert forall|i: int| ps <= i <= pe implies #[trigger] days[i] <= t by {
            if i < pe {
                assert(days[i] < days[pe]);
            }
        }
        assert(days[s] > t);
        if pe >= s {
            if pe > s {
                assert(days[s] < days[pe]);
            }
        }
    }
}

} // verus!
