//! Calendar dates of the proleptic Gregorian calendar, over the year range
//! that chrono's `NaiveDate` supports, and the month arithmetic that the
//! accrual schedules rest on.
use vstd::prelude::*;

use chrono::Datelike;

use crate::errors::Error;
use crate::numfmt::{decimal, decimal_chars, zero_pad, zero_pad_chars};
use crate::text::{chars_to_string, push_all};

verus! {

/// Earliest year a date may have.
pub const MIN_YEAR: i32 = -262143;

/// Latest year a date may have.
pub const MAX_YEAR: i32 = 262142;

/// A calendar date. Well-formed when `valid_date` holds of it.
#[derive(Debug, Clone, Copy, PartialEq, Eq, Hash, PartialOrd, Ord, Structural)]
pub struct Date {
    pub year: i32,
    pub month: u32,
    pub day: u32,
}

pub open spec fn is_leap(y: int) -> bool {
    (y % 4 == 0 && y % 100 != 0) || y % 400 == 0
}

pub open spec fn days_in_month_spec(y: int, m: int) -> int {
    if m == 2 {
        if is_leap(y) {
            29
        } else {
            28
        }
    } else if m == 4 || m == 6 || m == 9 || m == 11 {
        30
    } else {
        31
    }
}

pub open spec fn valid_ymd(y: int, m: int, d: int) -> bool {
    MIN_YEAR <= y <= MAX_YEAR && 1 <= m <= 12 && 1 <= d <= days_in_month_spec(y, m)
}

pub open spec fn valid_date(d: Date) -> bool {
    valid_ymd(d.year as int, d.month as int, d.day as int)
}

/// Chronological order: by year, then month, then day.
pub open spec fn date_le(a: Date, b: Date) -> bool {
    a.year < b.year || (a.year == b.year && (a.month < b.month || (a.month == b.month && a.day
        <= b.day)))
}

pub open spec fn date_lt(a: Date, b: Date) -> bool {
    date_le(a, b) && a != b
}

/// Number of the month of `y`/`m`, counting months from year 0.
pub open spec fn month_index(y: int, m: int) -> int {
    y * 12 + m - 1
}

pub open spec fn index_year(k: int) -> int {
    k / 12
}

pub open spec fn index_month(k: int) -> int {
    k % 12 + 1
}

/// The first day of the month numbered `k`.
pub open spec fn first_of_index(k: int) -> Date {
    Date { year: index_year(k) as i32, month: index_month(k) as u32, day: 1 }
}

/// The last day of the month numbered `k`.
pub open spec fn last_of_index(k: int) -> Date {
    Date {
        year: index_year(k) as i32,
        month: index_month(k) as u32,
        day: days_in_month_spec(index_year(k), index_month(k)) as u32,
    }
}

pub open spec fn month_index_of(d: Date) -> int {
    month_index(d.year as int, d.month as int)
}

/// Days before January 1st of year `y`, counted from January 1st of year 1.
pub open spec fn days_before_year(y: int) -> int {
    let p = y - 1;
    365 * p + p / 4 - p / 100 + p / 400
}

/// Days of year `y` before the first of month `m`.
pub open spec fn days_before_month(y: int, m: int) -> int {
    let leap_day: int = if m > 2 && is_leap(y) {
        1
    } else {
        0
    };
    let base: int = if m == 1 {
        0
    } else if m == 2 {
        31
    } else if m == 3 {
        59
    } else if m == 4 {
        90
    } else if m == 5 {
        120
    } else if m == 6 {
        151
    } else if m == 7 {
        181
    } else if m == 8 {
        212
    } else if m == 9 {
        243
    } else if m == 10 {
        273
    } else if m == 11 {
        304
    } else {
        334
    };
    base + leap_day
}

/// The serial number of a day: consecutive days have consecutive numbers.
pub open spec fn day_number(d: Date) -> int {
    days_before_year(d.year as int) + days_before_month(d.year as int, d.month as int) + d.day
}

pub fn is_leap_year(y: i32) -> (r: bool)
    ensures
        r == is_leap(y as int),
{
    (y % 4 == 0 && y % 100 != 0) || y % 400 == 0
}

/// Number of days of month `m` of year `y`.
pub fn days_in_month(y: i32, m: u32) -> (r: u32)
    requires
        1 <= m <= 12,
    ensures
        r == days_in_month_spec(y as int, m as int),
        28 <= r <= 31,
{
    if m == 2 {
        if is_leap_year(y) {
            29
        } else {
            28
        }
    } else if m == 4 || m == 6 || m == 9 || m == 11 {
        30
    } else {
        31
    }
}

impl Date {
    /// The date `year`-`month`-`day`, when it exists in the calendar and the
    /// supported year range.
    pub fn from_ymd_opt(year: i32, month: u32, day: u32) -> (r: Option<Date>)
        ensures
            r is Some <==> valid_ymd(year as int, month as int, day as int),
            r is Some ==> r->0 == (Date { year, month, day }),
    {
        if year < MIN_YEAR || year > MAX_YEAR || month < 1 || month > 12 || day < 1 {
            return None;
        }
        if day > days_in_month(year, month) {
            return None;
        }
        Some(Date { year, month, day })
    }

    pub fn year(&self) -> (r: i32)
        ensures
            r == self.year,
    {
        self.year
    }

    pub fn month(&self) -> (r: u32)
        ensures
            r == self.month,
    {
        self.month
    }

    pub fn day(&self) -> (r: u32)
        ensures
            r == self.day,
    {
        self.day
    }

    /// Whether this date comes strictly before `other`.
    pub fn is_before(&self, other: &Date) -> (r: bool)
        ensures
            r == date_lt(*self, *other),
    {
        self.year < other.year || (self.year == other.year && (self.month < other.month || (
        self.month == other.month && self.day < other.day)))
    }

    /// Whether this date is `other` or comes before it.
    pub fn is_on_or_before(&self, other: &Date) -> (r: bool)
        ensures
            r == date_le(*self, *other),
    {
        self.year < other.year || (self.year == other.year && (self.month < other.month || (
        self.month == other.month && self.day <= other.day)))
    }

    /// The first day of this date's month.
    pub fn month_start(&self) -> (r: Date)
        requires
            valid_date(*self),
        ensures
            r == first_of_index(month_index_of(*self)),
            valid_date(r),
    {
        proof {
            lemma_index_roundtrip(self.year as int, self.month as int);
        }
        Date { year: self.year, month: self.month, day: 1 }
    }

    /// The last day of this date's month.
    pub fn month_end(&self) -> (r: Date)
        requires
            valid_date(*self),
        ensures
            r == last_of_index(month_index_of(*self)),
            valid_date(r),
    {
        proof {
            lemma_index_roundtrip(self.year as int, self.month as int);
        }
        Date { year: self.year, month: self.month, day: days_in_month(self.year, self.month) }
    }

    /// The serial number of this day.
    pub fn day_number(&self) -> (r: i64)
        requires
            valid_date(*self),
        ensures
            r == day_number(*self),
    {
        let y = self.year as i64;
        let p = y - 1;
        let p4 = if p >= 0 { p / 4 } else { -((-p + 3) / 4) };
        let p100 = if p >= 0 { p / 100 } else { -((-p + 99) / 100) };
        let p400 = if p >= 0 { p / 400 } else { -((-p + 399) / 400) };
        proof {
            lemma_floor_div(p as int, 4);
            lemma_floor_div(p as int, 100);
            lemma_floor_div(p as int, 400);
        }
        let m = self.month;
        let base: i64 = if m == 1 {
            0
        } else if m == 2 {
            31
        } else if m == 3 {
            59
        } else if m == 4 {
            90
        } else if m == 5 {
            120
        } else if m == 6 {
            151
        } else if m == 7 {
            181
        } else if m == 8 {
            212
        } else if m == 9 {
            243
        } else if m == 10 {
            273
        } else if m == 11 {
            304
        } else {
            334
        };
        let leap_day: i64 = if m > 2 && is_leap_year(self.year) {
            1
        } else {
            0
        };
        365 * p + p4 - p100 + p400 + base + leap_day + self.day as i64
    }
}

/// Rust's truncating division, corrected towards minus infinity, agrees
/// with the Euclidean division of specifications for a positive divisor.
proof fn lemma_floor_div(p: int, q: int)
    requires
        q > 0,
        -1000000 <= p <= 1000000,
    ensures
        p >= 0 ==> p / q == p / q,
        p < 0 ==> -((-p + q - 1) / q) == p / q,
{
    if p < 0 {
        let a = (-p + q - 1) / q;
        let r = (-p + q - 1) % q;
        assert(q * a + r == -p + q - 1) by (nonlinear_arith)
            requires
                a == (-p + q - 1) / q,
                r == (-p + q - 1) % q,
                q > 0,
        ;
        assert(0 <= r < q);
        assert(p == q * (-a) + (q - 1 - r)) by (nonlinear_arith)
            requires
                q * a + r == -p + q - 1,
        ;
        assert(p / q == -a) by (nonlinear_arith)
            requires
                p == q * (-a) + (q - 1 - r),
                0 <= q - 1 - r < q,
                q > 0,
        ;
    }
}

pub proof fn lemma_index_roundtrip(y: int, m: int)
    requires
        1 <= m <= 12,
    ensures
        index_year(month_index(y, m)) == y,
        index_month(month_index(y, m)) == m,
{
    let k = month_index(y, m);
    assert(k == y * 12 + (m - 1));
    assert(k / 12 == y && k % 12 == m - 1) by (nonlinear_arith)
        requires
            k == y * 12 + (m - 1),
            0 <= m - 1 < 12,
    ;
}

} // verus!

verus! {

pub proof fn lemma_step_div(p: int, q: int)
    requires
        q > 0,
    ensures
        (p + 1) / q == p / q + (if (p + 1) % q == 0 {
            1int
        } else {
            0int
        }),
        ((p + 1) % q == 0) == ((p + 1) % q == 0),
{
    let a = p / q;
    let r = p % q;
    vstd::arithmetic::div_mod::lemma_fundamental_div_mod(p, q);
    assert(0 <= r < q);
    assert(p == a * q + r) by (nonlinear_arith)
        requires
            p == q * a + r,
    ;
    if r + 1 < q {
        vstd::arithmetic::div_mod::lemma_fundamental_div_mod_converse(p + 1, q, a, r + 1);
    } else {
        assert(p + 1 == (a + 1) * q + 0) by (nonlinear_arith)
            requires
                p == a * q + r,
                r + 1 == q,
        ;
        vstd::arithmetic::div_mod::lemma_fundamental_div_mod_converse(p + 1, q, a + 1, 0);
    }
}

/// The year after `y` starts `365` days later, one more in a leap year.
pub proof fn lemma_year_length(y: int)
    ensures
        days_before_year(y + 1) == days_before_year(y) + 365 + (if is_leap(y) {
            1int
        } else {
            0int
        }),
{
    let p = y - 1;
    lemma_step_div(p, 4);
    lemma_step_div(p, 100);
    lemma_step_div(p, 400);
    // y % 400 == 0 implies y % 100 == 0 implies y % 4 == 0.
    assert(y % 400 == 0 ==> y % 100 == 0) by {
        if y % 400 == 0 {
            vstd::arithmetic::div_mod::lemma_fundamental_div_mod(y, 400);
            vstd::arithmetic::div_mod::lemma_fundamental_div_mod_converse(y, 100, 4 * (y / 400), 0);
        }
    }
    assert(y % 100 == 0 ==> y % 4 == 0) by {
        if y % 100 == 0 {
            vstd::arithmetic::div_mod::lemma_fundamental_div_mod(y, 100);
            vstd::arithmetic::div_mod::lemma_fundamental_div_mod_converse(y, 4, 25 * (y / 100), 0);
        }
    }
}

/// The first day of month `k + 1` follows the last day of month `k`.
pub proof fn lemma_next_month_follows(k: int)
    requires
        MIN_YEAR <= index_year(k) && index_year(k + 1) <= MAX_YEAR,
    ensures
        day_number(first_of_index(k + 1)) == day_number(last_of_index(k)) + 1,
{
    let y = index_year(k);
    let m = index_month(k);
    vstd::arithmetic::div_mod::lemma_fundamental_div_mod(k, 12);
    assert(1 <= m <= 12);
    if m < 12 {
        vstd::arithmetic::div_mod::lemma_fundamental_div_mod_converse(k + 1, 12, y, m);
        assert(index_year(k + 1) == y && index_month(k + 1) == m + 1);
    } else {
        vstd::arithmetic::div_mod::lemma_fundamental_div_mod_converse(k + 1, 12, y + 1, 0);
        assert(index_year(k + 1) == y + 1 && index_month(k + 1) == 1);
        lemma_year_length(y);
    }
}

} // verus!

verus! {

/// The last days of the months from `start` to `end` that fall within
/// `start..=end`, in order.
pub open spec fn month_ends(start: Date, end: Date) -> Seq<Date> {
    if !date_le(start, end) {
        Seq::empty()
    } else {
        let a = month_index_of(start);
        let b = month_index_of(end);
        let partial: int = if (end.day as int) < days_in_month_spec(
            end.year as int,
            end.month as int,
        ) {
            1
        } else {
            0
        };
        Seq::new((b - a + 1 - partial) as nat, |i: int| last_of_index(a + i))
    }
}

/// Whether walking the months from `start` to `end` would need a month
/// beyond the supported calendar.
pub open spec fn month_walk_overflows(start: Date, end: Date) -> bool {
    date_le(start, end) && end.year == MAX_YEAR && end.month == 12
}

/// The last day of each month between `start` and `end` that lies within
/// the range. Fails when the month after `end` is beyond the calendar.
pub fn month_end_dates(start: Date, end: Date) -> (r: Result<Vec<Date>, Error>)
    requires
        valid_date(start),
        valid_date(end),
    ensures
        month_walk_overflows(start, end) <==> r is Err,
        r is Ok ==> r->Ok_0@ == month_ends(start, end),
        r matches Err(e) ==> e == (Error::MonthOutOfRange { year: (MAX_YEAR + 1) as i32, month: 1 }),
{
    let mut dates: Vec<Date> = Vec::new();
    if !start.is_on_or_before(&end) {
        return Ok(dates);
    }
    let ghost a = month_index_of(start);
    let ghost b = month_index_of(end);
    let mut y = start.year;
    let mut m = start.month;
    proof {
        lemma_index_roundtrip(y as int, m as int);
    }
    while y < end.year || (y == end.year && m <= end.month)
        invariant
            valid_date(start),
            valid_date(end),
            date_le(start, end),
            a == month_index_of(start),
            b == month_index_of(end),
            1 <= m <= 12,
            MIN_YEAR <= y <= MAX_YEAR,
            a <= month_index(y as int, m as int) <= b + 1,
            month_index(y as int, m as int) <= b ==> dates@ == Seq::new(
                (month_index(y as int, m as int) - a) as nat,
                |i: int| last_of_index(a + i),
            ),
            month_index(y as int, m as int) == b + 1 ==> dates@ == month_ends(start, end),
            month_index(y as int, m as int) <= b ==> (y < end.year || (y == end.year && m
                <= end.month)),
            month_index(y as int, m as int) == b + 1 ==> !(y < end.year || (y == end.year && m
                <= end.month)),
        decreases b + 1 - month_index(y as int, m as int),
    {
        let ghost k = month_index(y as int, m as int);
        proof {
            lemma_index_roundtrip(y as int, m as int);
            assert(k <= b);
        }
        if y == MAX_YEAR && m == 12 {
            assert(y == end.year && m == end.month);
            return Err(Error::MonthOutOfRange { year: MAX_YEAR + 1, month: 1 });
        }
        let last = Date { year: y, month: m, day: days_in_month(y, m) };
        assert(last == last_of_index(k));
        if last.is_on_or_before(&end) {
            dates.push(last);
        }
        if m == 12 {
            y = y + 1;
            m = 1;
        } else {
            m = m + 1;
        }
        proof {
            assert(month_index(y as int, m as int) == k + 1);
            if k < b {
                assert(date_le(last, end));
                assert(dates@ =~= Seq::new((k + 1 - a) as nat, |i: int| last_of_index(a + i)));
            } else {
                if (end.day as int) < days_in_month_spec(end.year as int, end.month as int) {
                    assert(dates@ =~= Seq::new((b - a) as nat, |i: int| last_of_index(a + i)));
                } else {
                    assert(dates@ =~= Seq::new((b - a + 1) as nat, |i: int| last_of_index(a + i)));
                }
            }
        }
    }
    Ok(dates)
}

} // verus!

verus! {

/// The part of a month over which an accrual is computed, and the day on
/// which its adjustment is recorded (the month's last day).
#[derive(Debug, Clone, Copy, PartialEq, Eq)]
pub struct MonthlyAccrualPeriod {
    pub period_start: Date,
    pub period_end: Date,
    pub num_days: i64,
    pub adjustment_date: Date,
}

pub open spec fn later(a: Date, b: Date) -> Date {
    if date_le(a, b) {
        b
    } else {
        a
    }
}

pub open spec fn earlier(a: Date, b: Date) -> Date {
    if date_le(a, b) {
        a
    } else {
        b
    }
}

/// The accrual period of the month that ends on `month_end`, clipped to
/// `start..=end`.
pub open spec fn accrual_period(start: Date, end: Date, month_end: Date) -> MonthlyAccrualPeriod {
    let first = Date { year: month_end.year, month: month_end.month, day: 1 };
    let ps = later(start, first);
    let pe = earlier(end, month_end);
    MonthlyAccrualPeriod {
        period_start: ps,
        period_end: pe,
        num_days: (day_number(pe) - day_number(ps) + 1) as i64,
        adjustment_date: month_end,
    }
}

/// The last days of the months that `start..=end` touches, in order, the
/// month of `end` included.
pub open spec fn touched_month_ends(start: Date, end: Date) -> Seq<Date> {
    if !date_le(start, end) {
        Seq::empty()
    } else {
        let a = month_index_of(start);
        let b = month_index_of(end);
        Seq::new((b - a + 1) as nat, |i: int| last_of_index(a + i))
    }
}

/// The calendar-month pieces of `start..=end`, in order.
pub open spec fn accrual_periods(start: Date, end: Date) -> Seq<MonthlyAccrualPeriod> {
    let e = touched_month_ends(start, end);
    Seq::new(e.len(), |i: int| accrual_period(start, end, e[i]))
}

/// The sum of `n`.
pub open spec fn int_total(n: Seq<int>) -> int
    decreases n.len(),
{
    if n.len() == 0 {
        0
    } else {
        int_total(n.drop_last()) + n.last()
    }
}

/// The number of days of the periods `p` together.
pub open spec fn days_total(p: Seq<MonthlyAccrualPeriod>) -> int {
    int_total(Seq::new(p.len(), |i: int| p[i].num_days as int))
}

/// Months with a smaller number come first.
pub proof fn lemma_index_order(k1: int, k2: int)
    requires
        k1 < k2,
    ensures
        index_year(k1) < index_year(k2) || (index_year(k1) == index_year(k2) && index_month(k1)
            < index_month(k2)),
        index_year(k1) <= index_year(k2),
{
    vstd::arithmetic::div_mod::lemma_fundamental_div_mod(k1, 12);
    vstd::arithmetic::div_mod::lemma_fundamental_div_mod(k2, 12);
    let y1 = k1 / 12;
    let y2 = k2 / 12;
    if y1 > y2 {
        assert(12 * y1 >= 12 * y2 + 12) by (nonlinear_arith)
            requires
                y1 > y2,
        ;
    }
}

proof fn lemma_month_end_facts(start: Date, end: Date, i: int)
    requires
        valid_date(start),
        valid_date(end),
        date_le(start, end),
        0 <= i < touched_month_ends(start, end).len(),
    ensures
        ({
            let k = month_index_of(start) + i;
            &&& valid_date(last_of_index(k))
            &&& valid_date(first_of_index(k))
            &&& date_le(first_of_index(k), end)
            &&& k < month_index_of(end) ==> date_le(last_of_index(k), end)
            &&& k == month_index_of(end) ==> date_le(end, last_of_index(k)) && index_year(k)
                == end.year && index_month(k) == end.month
            &&& i == 0 ==> date_le(first_of_index(k), start) && date_le(start, last_of_index(k))
                && index_year(k) == start.year && index_month(k) == start.month
            &&& i > 0 ==> date_lt(start, first_of_index(k))
            &&& month_index_of(start) <= k <= month_index_of(end)
        }),
{
    let a = month_index_of(start);
    let b = month_index_of(end);
    let k = a + i;
    lemma_index_roundtrip(start.year as int, start.month as int);
    lemma_index_roundtrip(end.year as int, end.month as int);
    vstd::arithmetic::div_mod::lemma_fundamental_div_mod(k, 12);
    if k < b {
        lemma_index_order(k, b);
    }
    if i > 0 {
        lemma_index_order(a, k);
    }
    if start.year as int > index_year(k) {
        lemma_index_order(a, k);
    }
}

/// The monthly accrual periods of `start..=end`: one per calendar month
/// that the range touches, each clipped to the range, with its number of
/// days and the month's last day as its adjustment date.
pub fn monthly_accrual_periods(start: Date, end: Date) -> (r: Result<
    Vec<MonthlyAccrualPeriod>,
    Error,
>)
    requires
        valid_date(start),
        valid_date(end),
    ensures
        month_walk_overflows(start, end) <==> r is Err,
        r is Ok ==> r->Ok_0@ == accrual_periods(start, end),
        r matches Err(e) ==> e == (Error::MonthOutOfRange { year: (MAX_YEAR + 1) as i32, month: 1 }),
{
    let mut ends = month_end_dates(start, end)?;
    if start.is_on_or_before(&end) && end.day < days_in_month(end.year, end.month) {
        ends.push(end.month_end());
    }
    let ghost e = touched_month_ends(start, end);
    proof {
        lemma_index_roundtrip(end.year as int, end.month as int);
        assert(ends@ =~= e);
    }
    let mut periods: Vec<MonthlyAccrualPeriod> = Vec::new();
    let mut i: usize = 0;
    while i < ends.len()
        invariant
            valid_date(start),
            valid_date(end),
            ends@ == e,
            e == touched_month_ends(start, end),
            i <= ends@.len(),
            periods@ == accrual_periods(start, end).take(i as int),
        decreases ends.len() - i,
    {
        let me = ends[i];
        proof {
            assert(date_le(start, end));
            lemma_month_end_facts(start, end, i as int);
        }
        let month_start = me.month_start();
        let period_start = if start.is_on_or_before(&month_start) {
            month_start
        } else {
            start
        };
        let period_end = if end.is_on_or_before(&me) {
            end
        } else {
            me
        };
        let num_days = period_end.day_number() - period_start.day_number() + 1;
        let p = MonthlyAccrualPeriod { period_start, period_end, num_days, adjustment_date: me };
        assert(p == accrual_period(start, end, e[i as int]));
        periods.push(p);
        assert(periods@ =~= accrual_periods(start, end).take(i + 1));
        i = i + 1;
    }
    assert(periods@ =~= accrual_periods(start, end));
    Ok(periods)
}

/// The accrual periods tile the range: there are some exactly when the
/// range is not empty; the first starts on `start`, each next one starts
/// the day after the previous one ends, and the last ends on `end`; each
/// lies within one calendar month, covers at least one day, and is
/// adjusted on that month's last day; their days add up to the range's.
pub proof fn lemma_accrual_periods_tile(start: Date, end: Date)
    requires
        valid_date(start),
        valid_date(end),
    ensures
        ({
            let p = accrual_periods(start, end);
            &&& p.len() > 0 <==> date_le(start, end)
            &&& p.len() > 0 ==> p[0].period_start == start && p[p.len() - 1].period_end == end
            &&& forall|i: int|
                0 <= i < p.len() - 1 ==> day_number(#[trigger] p[i + 1].period_start) == day_number(
                    p[i].period_end,
                ) + 1
            &&& forall|i: int|
                0 <= i < p.len() ==> {
                    &&& #[trigger] p[i].num_days >= 1
                    &&& p[i].num_days == day_number(p[i].period_end) - day_number(
                        p[i].period_start,
                    ) + 1
                    &&& p[i].period_start.year == p[i].period_end.year
                    &&& p[i].period_start.month == p[i].period_end.month
                    &&& p[i].adjustment_date == (Date {
                        year: p[i].period_end.year,
                        month: p[i].period_end.month,
                        day: days_in_month_spec(
                            p[i].period_end.year as int,
                            p[i].period_end.month as int,
                        ) as u32,
                    })
                    &&& (i < p.len() - 1 ==> p[i].period_end == p[i].adjustment_date)
                    &&& date_le(p[i].period_end, end)
                    &&& date_le(start, p[i].period_start)
                }
            &&& date_le(start, end) ==> days_total(p) == day_number(end) - day_number(start) + 1
        }),
{
    let p = accrual_periods(start, end);
    let e = touched_month_ends(start, end);
    let a = month_index_of(start);
    let b = month_index_of(end);
    if date_le(start, end) {
        lemma_index_roundtrip(start.year as int, start.month as int);
        lemma_index_roundtrip(end.year as int, end.month as int);
        if a > b {
            lemma_index_order(b, a);
        }
        assert(p.len() > 0);
        assert forall|i: int| 0 <= i < p.len() implies {
            &&& #[trigger] p[i].num_days >= 1
            &&& p[i].num_days == day_number(p[i].period_end) - day_number(p[i].period_start) + 1
            &&& p[i].period_start.year == p[i].period_end.year
            &&& p[i].period_start.month == p[i].period_end.month
            &&& p[i].adjustment_date == (Date {
                year: p[i].period_end.year,
                month: p[i].period_end.month,
                day: days_in_month_spec(p[i].period_end.year as int, p[i].period_end.month as int)
                    as u32,
            })
            &&& (i < p.len() - 1 ==> p[i].period_end == p[i].adjustment_date)
            &&& date_le(p[i].period_end, end)
            &&& date_le(start, p[i].period_start)
            &&& (i == 0 ==> p[i].period_start == start)
            &&& (i > 0 ==> p[i].period_start == first_of_index(a + i))
            &&& (i < p.len() - 1 ==> p[i].period_end == last_of_index(a + i))
            &&& (i == p.len() - 1 ==> p[i].period_end == end)
        } by {
            lemma_month_end_facts(start, end, i);
            let k = a + i;
            assert(e[i] == last_of_index(k));
            let ps = p[i].period_start;
            let pe = p[i].period_end;
            assert(ps.year == pe.year && ps.month == pe.month);
            assert(day_number(pe) - day_number(ps) == pe.day - ps.day);
        }
        assert forall|i: int| 0 <= i < p.len() - 1 implies day_number(
            #[trigger] p[i + 1].period_start,
        ) == day_number(p[i].period_end) + 1 by {
            lemma_month_end_facts(start, end, i);
            lemma_month_end_facts(start, end, i + 1);
            assert(p[i + 1].period_start == first_of_index(a + i + 1));
            assert(p[i].period_end == last_of_index(a + i));
            lemma_next_month_follows(a + i);
        }
        let st = Seq::new(p.len(), |i: int| day_number(p[i].period_start));
        let en = Seq::new(p.len(), |i: int| day_number(p[i].period_end));
        let n = Seq::new(p.len(), |i: int| p[i].num_days as int);
        assert forall|i: int| 0 <= i < n.len() implies #[trigger] n[i] == en[i] - st[i] + 1 by {
            assert(p[i].num_days >= 1);
        }
        assert forall|i: int| 0 <= i < n.len() - 1 implies st[i + 1] == #[trigger] en[i] + 1 by {
            assert(day_number(p[i + 1].period_start) == day_number(p[i].period_end) + 1);
        }
        lemma_run_total(st, en, n, n.len() as int);
        assert(n.take(n.len() as int) =~= n);
    }
}

/// In a run of day ranges where each starts the day after the previous
/// ends, the days of the first `j` reach from the first start to the end of
/// the `j`-th.
proof fn lemma_run_total(st: Seq<int>, en: Seq<int>, n: Seq<int>, j: int)
    requires
        st.len() == en.len() == n.len(),
        1 <= j <= n.len(),
        forall|i: int| 0 <= i < n.len() ==> #[trigger] n[i] == en[i] - st[i] + 1,
        forall|i: int| 0 <= i < n.len() - 1 ==> st[i + 1] == #[trigger] en[i] + 1,
    ensures
        int_total(n.take(j)) == en[j - 1] - st[0] + 1,
    decreases j,
{
    let t = n.take(j);
    assert(t.last() == n[j - 1]);
    assert(n[j - 1] == en[j - 1] - st[j - 1] + 1);
    assert(int_total(t) == int_total(t.drop_last()) + t.last());
    if j == 1 {
        assert(t.drop_last() =~= Seq::<int>::empty());
        assert(int_total(t.drop_last()) == 0);
    } else {
        lemma_run_total(st, en, n, j - 1);
        assert(t.drop_last() =~= n.take(j - 1));
        assert(st[j - 2 + 1] == en[j - 2] + 1);
        assert(t.last() == n[j - 1]);
    }
}

} // verus!

verus! {

/// The (year, month, day) that chrono 0.4 `NaiveDate::parse_from_str` reads
/// from `text` with the format `%Y-%m-%d`, if it reads a date.
pub uninterp spec fn chrono_parse_ymd(text: Seq<char>) -> Option<(i32, u32, u32)>;

/// chrono 0.4 `NaiveDate::parse_from_str(text, "%Y-%m-%d")`. A `NaiveDate`
/// only ever holds a date of the calendar within its year range, so what it
/// reads is a valid date.
#[verifier::external_body]
pub(crate) fn chrono_parse_iso(text: &str) -> (r: Option<Date>)
    ensures
        r is Some <==> chrono_parse_ymd(text@) is Some,
        r matches Some(d) ==> chrono_parse_ymd(text@) == Some((d.year, d.month, d.day))
            && valid_date(d),
{
    chrono::NaiveDate::parse_from_str(text, "%Y-%m-%d").ok().map(
        |d| Date { year: d.year(), month: d.month(), day: d.day() },
    )
}

/// The date written in `text` as `YYYY-MM-DD`, as chrono reads it.
pub fn parse_iso_date(text: &str) -> (r: Result<Date, Error>)
    ensures
        match chrono_parse_ymd(text@) {
            Some((y, m, d)) => r == Ok::<Date, Error>(Date { year: y, month: m, day: d }),
            None => r matches Err(Error::InvalidIsoDate { date }) && date@ == text@,
        },
        r matches Ok(d) ==> valid_date(d),
{
    match chrono_parse_iso(text) {
        Some(d) => Ok(d),
        None => Err(Error::InvalidIsoDate { date: text.to_owned() }),
    }
}

/// The year as chrono writes it: four digits within 0..=9999, else a sign
/// and at least four digits.
pub open spec fn year_text(y: int) -> Seq<char> {
    if 0 <= y <= 9999 {
        zero_pad(decimal(y as nat), 4)
    } else if y > 9999 {
        seq!['+'] + zero_pad(decimal(y as nat), 4)
    } else {
        seq!['-'] + zero_pad(decimal((-y) as nat), 4)
    }
}

/// A date written `YYYY-MM-DD`, as chrono's `Display` writes it.
pub open spec fn iso_text(d: Date) -> Seq<char> {
    year_text(d.year as int) + seq!['-'] + zero_pad(decimal(d.month as nat), 2) + seq!['-']
        + zero_pad(decimal(d.day as nat), 2)
}

impl Date {
    /// This date written `YYYY-MM-DD`.
    pub fn to_iso_string(&self) -> (r: String)
        ensures
            r@ == iso_text(*self),
    {
        let mut v: Vec<char> = Vec::new();
        let y = self.year;
        if 0 <= y && y <= 9999 {
            push_all(&mut v, &zero_pad_chars(&decimal_chars(y as u64), 4));
        } else if y > 9999 {
            v.push('+');
            push_all(&mut v, &zero_pad_chars(&decimal_chars(y as u64), 4));
        } else {
            v.push('-');
            let a: u64 = (-(y as i64)) as u64;
            push_all(&mut v, &zero_pad_chars(&decimal_chars(a), 4));
        }
        v.push('-');
        push_all(&mut v, &zero_pad_chars(&decimal_chars(self.month as u64), 2));
        v.push('-');
        push_all(&mut v, &zero_pad_chars(&decimal_chars(self.day as u64), 2));
        chars_to_string(&v)
    }
}

} // verus!
