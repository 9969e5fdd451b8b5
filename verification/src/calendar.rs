use vstd::prelude::*;

use chrono::Datelike;
use std::fmt::Write;
use trading_calendar::{NaiveDate, TradingCalendar};

verus! {

/// The exchanges whose trading calendars are known.
#[derive(Clone, Copy, Debug, PartialEq, Eq, Structural)]
pub enum Market {
    Nyse,
    Nasdaq,
    Lse,
    Tse,
    Tsx,
}

/// The market whose trading days drive all date arithmetic of the algorithm.
pub const CALENDAR_MARKET: Market = Market::Nasdaq;

/// The `dd.mm.yyyy` format of every date that users pass or see.
pub const CHRONO_FORMAT: &'static str = "%d.%m.%Y";

/// Smallest day number (days since 0001-01-01, which is day 1) on which
/// calendar arithmetic is done: 31 days after `chrono`'s first date
/// (day -95,746,129, 1 January 262144 BCE), so that the last trading day
/// before it still lies inside `chrono`'s range (no market closes for a
/// month: the holidays of a year are a few single days).
pub const MIN_CALENDAR_DAY: i32 = -95_746_098;

/// Largest day number on which calendar arithmetic is done: 31 days before
/// `chrono`'s last date (day 95,745,399, 31 December 262142), so that the
/// first trading day after it still lies inside `chrono`'s range.
pub const MAX_CALENDAR_DAY: i32 = 95_745_368;

/// True for day numbers on which calendar arithmetic is done.
pub open spec fn in_calendar_range(day: int) -> bool {
    MIN_CALENDAR_DAY <= day <= MAX_CALENDAR_DAY
}

/// Whether `day` is a trading day of `market`: neither a weekend day nor one
/// of the market's holidays, as `trading_calendar`'s market implementations
/// decide (`MarketImpl::is_trading_day`).
pub uninterp spec fn spec_is_trading_day(market: Market, day: int) -> bool;

/// True when `r` is the first trading day of `market` strictly after `day`.
pub open spec fn is_next_trading_day(market: Market, day: int, r: int) -> bool {
    &&& day < r
    &&& spec_is_trading_day(market, r)
    &&& forall|k: int| day < k < r ==> !#[trigger] spec_is_trading_day(market, k)
}

/// True when `r` is the last trading day of `market` strictly before `day`.
pub open spec fn is_previous_trading_day(market: Market, day: int, r: int) -> bool {
    &&& r < day
    &&& spec_is_trading_day(market, r)
    &&& forall|k: int| r < k < day ==> !#[trigger] spec_is_trading_day(market, k)
}

/// The first trading day of `market` strictly after `day`.
pub open spec fn next_trading_day_of(market: Market, day: int) -> int {
    choose|r: int| is_next_trading_day(market, day, r)
}

/// The last trading day of `market` strictly before `day`.
pub open spec fn previous_trading_day_of(market: Market, day: int) -> int {
    choose|r: int| is_previous_trading_day(market, day, r)
}

/// There is only one first trading day after a day.
proof fn lemma_next_trading_day_of(market: Market, day: int, r: int)
    requires
        is_next_trading_day(market, day, r),
    ensures
        next_trading_day_of(market, day) == r,
{
    let c = next_trading_day_of(market, day);
    assert(is_next_trading_day(market, day, c));
    if c < r {
        assert(spec_is_trading_day(market, c));
    } else if c > r {
        assert(spec_is_trading_day(market, r));
    }
}

/// There is only one last trading day before a day.
proof fn lemma_previous_trading_day_of(market: Market, day: int, r: int)
    requires
        is_previous_trading_day(market, day, r),
    ensures
        previous_trading_day_of(market, day) == r,
{
    let c = previous_trading_day_of(market, day);
    assert(is_previous_trading_day(market, day, c));
    if c < r {
        assert(spec_is_trading_day(market, c));
    } else if c > r {
        assert(spec_is_trading_day(market, r));
    }
}

/// The day number of the date that `text` denotes in the `chrono` format
/// `fmt`, or `None` if it does not parse.
pub uninterp spec fn spec_parse_date(text: Seq<char>, fmt: Seq<char>) -> Option<int>;

/// The rendering of day number `day` in the `chrono` format `fmt`, or `None`
/// if the format does not render.
pub uninterp spec fn spec_format_date(day: int, fmt: Seq<char>) -> Option<Seq<char>>;

/// Calls `trading_calendar::TradingCalendar::next_trading_day` on the
/// calendar of `market`. Claimed: the result is the first trading day
/// strictly after the day (the crate steps forward one day at a time until
/// `is_trading_day` holds): a trading day, with no trading day between.
/// Which days are trading days (weekends, the market's holidays) is left to
/// `spec_is_trading_day`.
#[verifier::external_body]
fn next_trading_day(market: Market, day: i32) -> (r: i32)
    requires
        in_calendar_range(day as int),
    ensures
        spec_is_trading_day(market, r as int),
        is_next_trading_day(market, day as int, r as int),
{
    let exchange = match market {
        Market::Nyse => trading_calendar::Market::NYSE,
        Market::Nasdaq => trading_calendar::Market::NASDAQ,
        Market::Lse => trading_calendar::Market::LSE,
        Market::Tse => trading_calendar::Market::TSE,
        Market::Tsx => trading_calendar::Market::TSX,
    };
    let calendar = TradingCalendar::new(exchange).expect("every market has a calendar");
    let date = NaiveDate::from_num_days_from_ce_opt(day).expect("day inside the date range");
    calendar.next_trading_day(date).num_days_from_ce()
}

/// Calls `trading_calendar::TradingCalendar::previous_trading_day` on the
/// calendar of `market`. Claimed: the result is the last trading day
/// strictly before the day (the crate steps back one day at a time until
/// `is_trading_day` holds): a trading day, with no trading day between.
/// Which days are trading days is left to `spec_is_trading_day`.
#[verifier::external_body]
fn previous_trading_day(market: Market, day: i32) -> (r: i32)
    requires
        in_calendar_range(day as int),
    ensures
        spec_is_trading_day(market, r as int),
        is_previous_trading_day(market, day as int, r as int),
{
    let exchange = match market {
        Market::Nyse => trading_calendar::Market::NYSE,
        Market::Nasdaq => trading_calendar::Market::NASDAQ,
        Market::Lse => trading_calendar::Market::LSE,
        Market::Tse => trading_calendar::Market::TSE,
        Market::Tsx => trading_calendar::Market::TSX,
    };
    let calendar = TradingCalendar::new(exchange).expect("every market has a calendar");
    let date = NaiveDate::from_num_days_from_ce_opt(day).expect("day inside the date range");
    calendar.previous_trading_day(date).num_days_from_ce()
}

/// Calls `chrono::NaiveDate::parse_from_str` and returns the day number of
/// the parsed date. Claimed: the outcome is a function of the text and the
/// format only; a parse error gives `None`.
#[verifier::external_body]
fn parse_date(text: &str, fmt: &str) -> (r: Option<i32>)
    ensures
        match r {
            Some(d) => spec_parse_date(text@, fmt@) == Some(d as int),
            None => spec_parse_date(text@, fmt@) is None,
        },
{
    match NaiveDate::parse_from_str(text, fmt) {
        Ok(date) => Some(date.num_days_from_ce()),
        Err(_) => None,
    }
}

/// Renders day number `day` with `chrono::NaiveDate::format`. Claimed: the
/// outcome is a function of the day and the format only; a format that does
/// not render gives `None`.
#[verifier::external_body]
fn format_date(day: i32, fmt: &str) -> (r: Option<String>)
    requires
        in_calendar_range(day as int),
    ensures
        match r {
            Some(s) => spec_format_date(day as int, fmt@) == Some(s@),
            None => spec_format_date(day as int, fmt@) is None,
        },
{
    let date = NaiveDate::from_num_days_from_ce_opt(day).expect("day inside the date range");
    let mut text = String::new();
    match write!(text, "{}", date.format(fmt)) {
        Ok(()) => Some(text),
        Err(_) => None,
    }
}

/// The day `count` trading days after `day`, or `None` if some intermediate
/// day leaves the calendar range.
pub open spec fn trading_days_after(market: Market, day: int, count: nat) -> Option<int>
    decreases count,
{
    if count == 0 {
        Some(day)
    } else {
        match trading_days_after(market, day, (count - 1) as nat) {
            Some(d) => if in_calendar_range(d) {
                Some(next_trading_day_of(market, d))
            } else {
                None
            },
            None => None,
        }
    }
}

/// The day `count` trading days before `day`, or `None` if some intermediate
/// day leaves the calendar range.
pub open spec fn trading_days_before(market: Market, day: int, count: nat) -> Option<int>
    decreases count,
{
    if count == 0 {
        Some(day)
    } else {
        match trading_days_before(market, day, (count - 1) as nat) {
            Some(d) => if in_calendar_range(d) {
                Some(previous_trading_day_of(market, d))
            } else {
                None
            },
            None => None,
        }
    }
}

/// The number of trading days of `market` in the interval `(from, to]`.
pub open spec fn trading_days_in(market: Market, from: int, to: int) -> nat
    decreases to - from,
{
    if to <= from {
        0
    } else {
        trading_days_in(market, from, to - 1) + if spec_is_trading_day(market, to) {
            1nat
        } else {
            0nat
        }
    }
}

/// True when `r` is the `n`-th trading day of `market` after `day` (`day`
/// itself for `n == 0`): a trading day later than `day` with exactly `n`
/// trading days in `(day, r]`.
pub open spec fn is_nth_trading_day_after(market: Market, day: int, n: nat, r: int) -> bool {
    if n == 0 {
        r == day
    } else {
        &&& day < r
        &&& spec_is_trading_day(market, r)
        &&& trading_days_in(market, day, r) == n
    }
}

/// True when `p` is the `n`-th trading day of `market` before `day` (`day`
/// itself for `n == 0`): a trading day earlier than `day` with exactly `n`
/// trading days in `[p, day)`.
pub open spec fn is_nth_trading_day_before(market: Market, day: int, n: nat, p: int) -> bool {
    if n == 0 {
        p == day
    } else {
        &&& p < day
        &&& spec_is_trading_day(market, p)
        &&& trading_days_in(market, p - 1, day - 1) == n
    }
}

/// Trading days of adjacent intervals add up.
pub proof fn lemma_trading_days_split(market: Market, a: int, b: int, c: int)
    requires
        a <= b <= c,
    ensures
        trading_days_in(market, a, c) == trading_days_in(market, a, b) + trading_days_in(
            market,
            b,
            c,
        ),
    decreases c - b,
{
    if c > b {
        lemma_trading_days_split(market, a, b, c - 1);
    }
}

/// An interval without trading days counts none.
pub proof fn lemma_no_trading_days(market: Market, a: int, c: int)
    requires
        forall|k: int| a < k <= c ==> !#[trigger] spec_is_trading_day(market, k),
    ensures
        trading_days_in(market, a, c) == 0,
    decreases c - a,
{
    if c > a {
        lemma_no_trading_days(market, a, c - 1);
    }
}

/// If `b` is a trading day and none lies strictly between `a` and `b`, then
/// `(a, b]` holds exactly one trading day.
proof fn lemma_single_trading_day(market: Market, a: int, b: int)
    requires
        a < b,
        spec_is_trading_day(market, b),
        forall|k: int| a < k < b ==> !#[trigger] spec_is_trading_day(market, k),
    ensures
        trading_days_in(market, a, b) == 1,
{
    lemma_no_trading_days(market, a, b - 1);
}

/// One step forward from the `i`-th trading day after `day` reaches the
/// `i + 1`-th.
proof fn lemma_step_after(market: Market, day: int, i: nat, r: int, next: int)
    requires
        is_nth_trading_day_after(market, day, i, r),
        r < next,
        spec_is_trading_day(market, next),
        forall|k: int| r < k < next ==> !#[trigger] spec_is_trading_day(market, k),
    ensures
        is_nth_trading_day_after(market, day, i + 1, next),
{
    lemma_single_trading_day(market, r, next);
    if i > 0 {
        lemma_trading_days_split(market, day, r, next);
    }
}

/// One step back from the `i`-th trading day before `day` reaches the
/// `i + 1`-th.
proof fn lemma_step_before(market: Market, day: int, i: nat, p: int, prev: int)
    requires
        is_nth_trading_day_before(market, day, i, p),
        prev < p,
        spec_is_trading_day(market, prev),
        forall|k: int| prev < k < p ==> !#[trigger] spec_is_trading_day(market, k),
    ensures
        is_nth_trading_day_before(market, day, i + 1, prev),
{
    lemma_no_trading_days(market, prev, p - 1);
    assert(trading_days_in(market, prev - 1, prev - 1) == 0);
    assert(trading_days_in(market, prev - 1, prev) == 1);
    lemma_trading_days_split(market, prev - 1, prev, p - 1);
    lemma_trading_days_split(market, prev - 1, p - 1, day - 1);
}

/// The `n`-th trading day after a day is no later than the `n`-th trading
/// day after any later day.
pub proof fn lemma_nth_after_monotone(market: Market, a: int, b: int, n: nat, ra: int, rb: int)
    requires
        a <= b,
        is_nth_trading_day_after(market, a, n, ra),
        is_nth_trading_day_after(market, b, n, rb),
    ensures
        ra <= rb,
{
    if n > 0 && rb < ra {
        lemma_trading_days_split(market, a, b, rb);
        lemma_trading_days_split(market, a, rb, ra);
        lemma_trading_days_split(market, rb, ra - 1, ra);
    }
}

/// Counting back `n` trading days from the `n`-th trading day after a
/// trading day `day` leads to `day` again.
pub proof fn lemma_trading_round_trip(market: Market, day: int, n: nat, r: int, p: int)
    requires
        spec_is_trading_day(market, day),
        is_nth_trading_day_after(market, day, n, r),
        is_nth_trading_day_before(market, r, n, p),
    ensures
        p == day,
{
    if n > 0 {
        // (day - 1, r - 1] holds n trading days: day counts, r does not.
        lemma_trading_days_split(market, day - 1, day, r);
        lemma_trading_days_split(market, day - 1, r - 1, r);
        if p < day {
            lemma_trading_days_split(market, p - 1, p, day - 1);
            lemma_trading_days_split(market, p - 1, day - 1, r - 1);
        } else if p > day {
            lemma_trading_days_split(market, day - 1, day, p - 1);
            lemma_trading_days_split(market, day - 1, p - 1, r - 1);
        }
    }
}

/// Counting forward `n` trading days from the `n`-th trading day before a
/// trading day `day` leads to `day` again.
pub proof fn lemma_trading_round_trip_back(market: Market, day: int, n: nat, p: int, r: int)
    requires
        spec_is_trading_day(market, day),
        is_nth_trading_day_before(market, day, n, p),
        is_nth_trading_day_after(market, p, n, r),
    ensures
        r == day,
{
    if n > 0 {
        // (p, day] holds n trading days: day counts, p does not.
        lemma_trading_days_split(market, p - 1, p, day);
        lemma_trading_days_split(market, p - 1, day - 1, day);
        assert(trading_days_in(market, p - 1, p - 1) == 0);
        assert(trading_days_in(market, day - 1, day - 1) == 0);
        if r < day {
            lemma_trading_days_split(market, p, r, day);
            lemma_trading_days_split(market, r, day - 1, day);
        } else if r > day {
            lemma_trading_days_split(market, day, r - 1, r);
            lemma_trading_days_split(market, p, day, r);
        }
    }
}

/// Steps `count` trading days of `market` forward from `day`.
pub fn add_trading_days(market: Market, day: i32, count: usize) -> (r: Option<i32>)
    ensures
        match r {
            Some(d) => trading_days_after(market, day as int, count as nat) == Some(d as int),
            None => trading_days_after(market, day as int, count as nat) is None,
        },
        r matches Some(d) ==> day <= d && (count > 0 ==> day < d),
        r matches Some(d) ==> is_nth_trading_day_after(market, day as int, count as nat, d as int),
{
    let mut result = day;
    let mut i: usize = 0;
    while i < count
        invariant
            i <= count,
            trading_days_after(market, day as int, i as nat) == Some(result as int),
            day <= result,
            i > 0 ==> day < result,
            is_nth_trading_day_after(market, day as int, i as nat, result as int),
        decreases count - i,
    {
        if result < MIN_CALENDAR_DAY || result > MAX_CALENDAR_DAY {
            proof {
                lemma_after_stays_none(market, day as int, (i + 1) as nat, count as nat);
            }
            return None;
        }
        let next = next_trading_day(market, result);
        proof {
            lemma_next_trading_day_of(market, result as int, next as int);
            lemma_step_after(market, day as int, i as nat, result as int, next as int);
        }
        result = next;
        i = i + 1;
    }
    Some(result)
}

/// Steps `count` trading days of `market` back from `day`.
pub fn subtract_trading_days(market: Market, day: i32, count: usize) -> (r: Option<i32>)
    ensures
        match r {
            Some(d) => trading_days_before(market, day as int, count as nat) == Some(d as int),
            None => trading_days_before(market, day as int, count as nat) is None,
        },
        r matches Some(d) ==> d <= day && (count > 0 ==> d < day),
        r matches Some(d) ==> is_nth_trading_day_before(market, day as int, count as nat, d as int),
{
    let mut result = day;
    let mut i: usize = 0;
    while i < count
        invariant
            i <= count,
            trading_days_before(market, day as int, i as nat) == Some(result as int),
            result <= day,
            i > 0 ==> result < day,
            is_nth_trading_day_before(market, day as int, i as nat, result as int),
        decreases count - i,
    {
        if result < MIN_CALENDAR_DAY || result > MAX_CALENDAR_DAY {
            proof {
                lemma_before_stays_none(market, day as int, (i + 1) as nat, count as nat);
            }
            return None;
        }
        let prev = previous_trading_day(market, result);
        proof {
            lemma_previous_trading_day_of(market, result as int, prev as int);
            lemma_step_before(market, day as int, i as nat, result as int, prev as int);
        }
        result = prev;
        i = i + 1;
    }
    Some(result)
}

/// Once stepping forward has left the calendar range, further steps do too.
pub proof fn lemma_after_stays_none(market: Market, day: int, i: nat, n: nat)
    requires
        i <= n,
        trading_days_after(market, day, i) is None,
    ensures
        trading_days_after(market, day, n) is None,
    decreases n - i,
{
    if i < n {
        lemma_after_stays_none(market, day, i + 1, n);
    }
}

/// Once stepping back has left the calendar range, further steps do too.
proof fn lemma_before_stays_none(market: Market, day: int, i: nat, n: nat)
    requires
        i <= n,
        trading_days_before(market, day, i) is None,
    ensures
        trading_days_before(market, day, n) is None,
    decreases n - i,
{
    if i < n {
        lemma_before_stays_none(market, day, i + 1, n);
    }
}

/// Parses a `dd.mm.yyyy` date into its day number.
pub fn parse_naive_date(s: &str) -> (r: Option<i32>)
    ensures
        match r {
            Some(d) => spec_parse_date(s@, CHRONO_FORMAT@) == Some(d as int),
            None => spec_parse_date(s@, CHRONO_FORMAT@) is None,
        },
{
    parse_date(s, CHRONO_FORMAT)
}

/// Formats a day number as a `dd.mm.yyyy` date.
pub fn format_naive_date(day: i32) -> (r: Option<String>)
    requires
        in_calendar_range(day as int),
    ensures
        match r {
            Some(s) => spec_format_date(day as int, CHRONO_FORMAT@) == Some(s@),
            None => spec_format_date(day as int, CHRONO_FORMAT@) is None,
        },
{
    format_date(day, CHRONO_FORMAT)
}

/// Adds a number of trading days of the algorithm's market to a date.
pub fn add_naive_date(day: i32, count: usize) -> (r: Option<i32>)
    ensures
        match r {
            Some(d) => trading_days_after(CALENDAR_MARKET, day as int, count as nat) == Some(
                d as int,
            ),
            None => trading_days_after(CALENDAR_MARKET, day as int, count as nat) is None,
        },
        r matches Some(d) ==> day <= d && (count > 0 ==> day < d),
        r matches Some(d) ==> is_nth_trading_day_after(
            CALENDAR_MARKET,
            day as int,
            count as nat,
            d as int,
        ),
{
    add_trading_days(CALENDAR_MARKET, day, count)
}

/// Subtracts a number of trading days of the algorithm's market from a date.
pub fn subtract_naive_date(day: i32, count: usize) -> (r: Option<i32>)
    ensures
        match r {
            Some(d) => trading_days_before(CALENDAR_MARKET, day as int, count as nat) == Some(
                d as int,
            ),
            None => trading_days_before(CALENDAR_MARKET, day as int, count as nat) is None,
        },
        r matches Some(d) ==> d <= day && (count > 0 ==> d < day),
        r matches Some(d) ==> is_nth_trading_day_before(
            CALENDAR_MARKET,
            day as int,
            count as nat,
            d as int,
        ),
{
    subtract_trading_days(CALENDAR_MARKET, day, count)
}

} // verus!
