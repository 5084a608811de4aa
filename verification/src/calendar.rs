//! Calendar arithmetic on plain day numbers: day zero is the first of
//! January of year one in the proleptic Gregorian calendar, which falls on
//! a Monday, so the weekday of any date is its day number modulo seven.

use vstd::prelude::*;
use vstd::arithmetic::div_mod::lemma_fundamental_div_mod_converse;
use crate::clock::today_day_number;

verus! {

/// A calendar date, counted in whole days since the first of January of
/// year one (day zero, a Monday).
#[derive(Clone, Copy, PartialEq, Eq, Structural, Debug)]
pub struct Date {
    pub days: u32,
}

/// Gregorian leap-year rule.
pub open spec fn is_leap_spec(y: int) -> bool {
    (y % 4 == 0 && y % 100 != 0) || y % 400 == 0
}

/// Length of a month in days.
pub open spec fn days_in_month_spec(y: int, m: int) -> int {
    if m == 2 {
        if is_leap_spec(y) {
            29
        } else {
            28
        }
    } else if m == 4 || m == 6 || m == 9 || m == 11 {
        30
    } else {
        31
    }
}

/// Days of the year before the first of month `m`.
pub open spec fn days_before_month_spec(y: int, m: int) -> int {
    let plain: int = if m == 1 {
        0
    } else if m == 2 {
        31
    } else if m == 3 {
        59
    } else if m == 4 {
        90
    } else if m == 5 {
        120
    } else if m == 6 {
        151
    } else if m == 7 {
        181
    } else if m == 8 {
        212
    } else if m == 9 {
        243
    } else if m == 10 {
        273
    } else if m == 11 {
        304
    } else {
        334
    };
    if m > 2 && is_leap_spec(y) {
        plain + 1
    } else {
        plain
    }
}

/// The day number of a date given as year, month and day: whole years
/// before it (with the Gregorian leap corrections), whole months before it
/// within the year, and the days into the month.
pub open spec fn day_number_spec(y: int, m: int, d: int) -> int {
    let py = y - 1;
    365 * py + py / 4 - py / 100 + py / 400 + days_before_month_spec(y, m) + (d - 1)
}

/// A year-month-day triple the calendar supports: years one through nine
/// thousand nine hundred ninety-nine, a real month, a real day of that
/// month.
pub open spec fn ymd_valid_spec(y: int, m: int, d: int) -> bool {
    1 <= y <= 9999 && 1 <= m <= 12 && 1 <= d <= days_in_month_spec(y, m)
}

/// True in leap years.
pub fn is_leap(y: u32) -> (r: bool)
    ensures
        r == is_leap_spec(y as int),
{
    (y % 4 == 0 && y % 100 != 0) || y % 400 == 0
}

/// Length of a month in days.
pub fn days_in_month(y: u32, m: u32) -> (r: u32)
    requires
        1 <= m <= 12,
    ensures
        r == days_in_month_spec(y as int, m as int),
{
    if m == 2 {
        if is_leap(y) {
            29
        } else {
            28
        }
    } else if m == 4 || m == 6 || m == 9 || m == 11 {
        30
    } else {
        31
    }
}

fn days_before_month(y: u32, m: u32) -> (r: u32)
    requires
        1 <= m <= 12,
    ensures
        r == days_before_month_spec(y as int, m as int),
{
    let plain: u32 = match m {
        1 => 0,
        2 => 31,
        3 => 59,
        4 => 90,
        5 => 120,
        6 => 151,
        7 => 181,
        8 => 212,
        9 => 243,
        10 => 273,
        11 => 304,
        _ => 334,
    };
    if m > 2 && is_leap(y) {
        plain + 1
    } else {
        plain
    }
}

/// The day number of the given calendar date.
pub fn day_number(y: u32, m: u32, d: u32) -> (r: u32)
    requires
        1 <= y <= 9999,
        1 <= m <= 12,
        d >= 1,
        d <= days_in_month_spec(y as int, m as int),
    ensures
        r == day_number_spec(y as int, m as int, d as int),
        r < 3_660_000,
{
    let py = y - 1;
    365 * py + py / 4 - py / 100 + py / 400 + days_before_month(y, m) + (d - 1)
}

impl Date {
    /// Builds a date from year, month and day; a triple outside the
    /// supported calendar yields nothing.
    pub fn from_ymd(y: u32, m: u32, d: u32) -> (r: Option<Date>)
        ensures
            r == if ymd_valid_spec(y as int, m as int, d as int) {
                Some(
                    Date {
                        days: day_number_spec(y as int, m as int, d as int) as u32,
                    },
                )
            } else {
                None::<Date>
            },
    {
        if 1 <= y && y <= 9999 && 1 <= m && m <= 12 && 1 <= d && d <= days_in_month(y, m) {
            Some(Date { days: day_number(y, m, d) })
        } else {
            None
        }
    }

    /// The weekday index of the date: zero is Monday, six is Sunday.
    pub fn weekday_index(&self) -> (r: u32)
        ensures
            r == self.days % 7,
            r < 7,
    {
        self.days % 7
    }
}

/// Dividing by `d` grows by one exactly at the multiples of `d`.
proof fn lemma_div_step(y: int, d: int)
    requires
        y >= 1,
        d >= 1,
    ensures
        y / d - (y - 1) / d == if y % d == 0 {
            1int
        } else {
            0int
        },
{
    let q = y / d;
    let r = y % d;
    vstd::arithmetic::div_mod::lemma_fundamental_div_mod(y, d);
    if r == 0 {
        assert(y - 1 == (q - 1) * d + (d - 1)) by (nonlinear_arith)
            requires
                y == d * q,
        ;
        lemma_fundamental_div_mod_converse(y - 1, d, q - 1, d - 1);
    } else {
        assert(y - 1 == q * d + (r - 1)) by (nonlinear_arith)
            requires
                y == d * q + r,
        ;
        lemma_fundamental_div_mod_converse(y - 1, d, q, r - 1);
    }
}

/// A multiple of one hundred is a multiple of four; a multiple of four
/// hundred is a multiple of one hundred and of four.
proof fn lemma_divisibility_chain(y: int)
    ensures
        y % 100 == 0 ==> y % 4 == 0,
        y % 400 == 0 ==> y % 100 == 0,
        y % 400 == 0 ==> y % 4 == 0,
{
    if y % 100 == 0 {
        vstd::arithmetic::div_mod::lemma_fundamental_div_mod(y, 100);
        let k = y / 100;
        vstd::arithmetic::div_mod::lemma_mod_multiples_basic(25 * k, 4);
    }
    if y % 400 == 0 {
        vstd::arithmetic::div_mod::lemma_fundamental_div_mod(y, 400);
        let k = y / 400;
        vstd::arithmetic::div_mod::lemma_mod_multiples_basic(4 * k, 100);
        vstd::arithmetic::div_mod::lemma_mod_multiples_basic(100 * k, 4);
    }
}

/// Stepping from the first of December to the first of January of the
/// following year advances the day number by exactly thirty-one days: the
/// three leap-divisibility corrections cancel against the length that
/// `days_before_month_spec` already gave the year.
proof fn lemma_year_rollover(y: int)
    requires
        y >= 1,
    ensures
        day_number_spec(y + 1, 1, 1) == day_number_spec(y, 12, 1) + 31,
{
    lemma_div_step(y, 4);
    lemma_div_step(y, 100);
    lemma_div_step(y, 400);
    lemma_divisibility_chain(y);
}

/// The first of the following month (January of the following year, after
/// December) lies exactly one month length past the first of this month.
proof fn lemma_next_month_first(y: int, m: int)
    requires
        1 <= y <= 9998,
        1 <= m <= 12,
    ensures
        (if m == 12 {
            day_number_spec(y + 1, 1, 1)
        } else {
            day_number_spec(y, m + 1, 1)
        }) == day_number_spec(y, m, 1) + days_in_month_spec(y, m),
{
    if m == 12 {
        lemma_year_rollover(y);
    }
}

/// Every Monday of an ISO week that overlaps the given month of the given
/// year, ascending: the first is the Monday on or before the first of the
/// month, the rest step by seven days, and the walk stops strictly before
/// the first of the following month. A month outside one through twelve
/// yields the empty list.
pub fn get_mondays_in_month(year: u32, month: u32) -> (r: Vec<Date>)
    requires
        1 <= year <= 9998,
    ensures
        !(1 <= month <= 12) ==> r@.len() == 0,
        (1 <= month <= 12) ==> ({
            let first = day_number_spec(year as int, month as int, 1);
            let limit = first + days_in_month_spec(year as int, month as int);
            let start = first - first % 7;
            &&& r@.len() >= 1
            &&& forall|i: int| 0 <= i < r@.len() ==> (#[trigger] r@[i]).days == start + 7 * i
            &&& forall|i: int| 0 <= i < r@.len() ==> (#[trigger] r@[i]).days % 7 == 0
            &&& start <= first < start + 7
            &&& r@[r@.len() - 1].days < limit <= r@[r@.len() - 1].days + 7
        }),
{
    if month < 1 || month > 12 {
        return Vec::new();
    }
    let first = day_number(year, month, 1);
    let limit = if month == 12 {
        day_number(year + 1, 1, 1)
    } else {
        day_number(year, month + 1, 1)
    };
    proof {
        lemma_next_month_first(year as int, month as int);
    }
    let start = first - first % 7;
    proof {
        vstd::arithmetic::div_mod::lemma_fundamental_div_mod(first as int, 7);
        vstd::arithmetic::div_mod::lemma_mod_multiples_basic(first as int / 7, 7);
        assert((first as int / 7) * 7 == 7 * (first as int / 7));
    }
    let mut r: Vec<Date> = Vec::new();
    let mut cur = start;
    while cur < limit
        invariant
            limit == day_number_spec(year as int, month as int, 1) + days_in_month_spec(
                year as int,
                month as int,
            ),
            first == day_number_spec(year as int, month as int, 1),
            start == first - first % 7,
            start % 7 == 0,
            cur % 7 == 0,
            start <= first < limit,
            limit < 3_660_100,
            cur == start + 7 * r@.len(),
            forall|i: int| 0 <= i < r@.len() ==> (#[trigger] r@[i]).days == start + 7 * i,
            forall|i: int| 0 <= i < r@.len() ==> (#[trigger] r@[i]).days % 7 == 0,
            forall|i: int| 0 <= i < r@.len() ==> (#[trigger] r@[i]).days < limit,
        decreases limit + 7 - cur,
    {
        r.push(Date { days: cur });
        cur = cur + 7;
        proof {
            assert(cur % 7 == 0) by (nonlinear_arith)
                requires
                    (cur - 7) % 7 == 0,
                    cur >= 7,
            ;
        }
    }
    r
}

/// Strictly ascending by day number: sorted, with no duplicates.
pub open spec fn dates_strictly_ascending(s: Seq<Date>) -> bool {
    forall|i: int| 0 <= i < s.len() - 1 ==> (#[trigger] s[i]).days < s[i + 1].days
}

/// What insertion does to membership: afterwards a value is in the
/// sequence exactly when it was there before or is the inserted one.
proof fn lemma_insert_contains(s: Seq<Date>, k: int, v: Date)
    requires
        0 <= k <= s.len(),
    ensures
        forall|x: Date| s.insert(k, v).contains(x) <==> (s.contains(x) || x == v),
{
    assert forall|x: Date| #[trigger] s.insert(k, v).contains(x) implies (s.contains(x) || x
        == v) by {
        let j = choose|j: int| 0 <= j < s.insert(k, v).len() && s.insert(k, v)[j] == x;
        if j < k {
            assert(s[j] == x);
        } else if j > k {
            assert(s[j - 1] == x);
        }
    }
    assert forall|x: Date| s.contains(x) || x == v implies #[trigger] s.insert(k, v).contains(
        x,
    ) by {
        if x == v {
            assert(s.insert(k, v)[k] == x);
        } else {
            let j = choose|j: int| 0 <= j < s.len() && s[j] == x;
            if j < k {
                assert(s.insert(k, v)[j] == x);
            } else {
                assert(s.insert(k, v)[j + 1] == x);
            }
        }
    }
}

/// The distinct dates among the given ones, sorted ascending: exactly the
/// dates that occur in the input, each once.
pub fn distinct_dates(dates: &Vec<Date>) -> (r: Vec<Date>)
    ensures
        dates_strictly_ascending(r@),
        forall|x: Date| r@.contains(x) <==> dates@.contains(x),
{
    let mut out: Vec<Date> = Vec::new();
    let mut i: usize = 0;
    while i < dates.len()
        invariant
            i <= dates@.len(),
            dates_strictly_ascending(out@),
            forall|x: Date| out@.contains(x) <==> dates@.take(i as int).contains(x),
        decreases dates@.len() - i,
    {
        let d = dates[i];
        let mut k: usize = 0;
        while k < out.len() && out[k].days < d.days
            invariant
                k <= out@.len(),
                forall|j: int| 0 <= j < k ==> (#[trigger] out@[j]).days < d.days,
            decreases out@.len() - k,
        {
            k = k + 1;
        }
        let ghost pre = out@;
        proof {
            assert(dates@.take(i as int + 1) =~= dates@.take(i as int).insert(i as int, d));
            lemma_insert_contains(dates@.take(i as int), i as int, d);
            assert forall|x: Date|
                dates@.take(i as int + 1).contains(x) <==> (dates@.take(i as int).contains(x) || x
                    == d) by {
                assert(dates@.take(i as int).insert(i as int, d).contains(x) <==> (dates@.take(
                    i as int,
                ).contains(x) || x == d));
            }
        }
        if k == out.len() || out[k].days > d.days {
            out.insert(k, d);
            proof {
                lemma_insert_contains(pre, k as int, d);
                assert forall|x: Date| out@.contains(x) <==> dates@.take(i as int + 1).contains(
                    x,
                ) by {
                    assert(out@.contains(x) <==> (pre.contains(x) || x == d));
                    assert(dates@.take(i as int + 1).contains(x) <==> (dates@.take(
                        i as int,
                    ).contains(x) || x == d));
                }
                assert forall|p: int| 0 <= p < out@.len() - 1 implies (#[trigger] out@[p]).days
                    < out@[p + 1].days by {
                    if p < k as int - 1 {
                        assert(out@[p] == pre[p] && out@[p + 1] == pre[p + 1]);
                    } else if p == k as int - 1 {
                        assert(out@[p] == pre[p] && out@[p + 1] == d);
                    } else if p == k as int {
                        assert(out@[p] == d && out@[p + 1] == pre[p]);
                    } else {
                        assert(out@[p] == pre[p - 1] && out@[p + 1] == pre[p]);
                    }
                }
            }
        } else {
            proof {
                assert(pre[k as int] == d);
                assert(pre.contains(d));
                assert forall|x: Date| out@.contains(x) <==> dates@.take(i as int + 1).contains(
                    x,
                ) by {
                    assert(dates@.take(i as int + 1).contains(x) <==> (dates@.take(
                        i as int,
                    ).contains(x) || x == d));
                }
            }
        }
        i = i + 1;
    }
    proof {
        assert(dates@.take(dates@.len() as int) =~= dates@);
    }
    out
}

/// The present local date, seven days back (clamped at day zero).
pub fn current_date_minus_seven_days() -> (r: Date)
    ensures
        r.days <= 100_000_000,
{
    let today = today_day_number();
    if today >= 7 {
        Date { days: today - 7 }
    } else {
        Date { days: 0 }
    }
}

} // verus!
