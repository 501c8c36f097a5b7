//! Calendar dates and the arithmetic on them.
//!
//! A [`Date`] is a plain year/month/day triple. Its meaning is given by
//! [`Date::day_number`], the count of days since the day before 1 January of
//! year 1 in the proleptic Gregorian calendar. Month shifts are stated over
//! the triple, day offsets and differences over the day number.

use vstd::prelude::*;
use chrono::{Datelike, NaiveDate, TimeDelta};

verus! {

/// First year that a [`Date`] can lie in.
pub const MIN_YEAR: i32 = -262143;

/// Last year that a [`Date`] can lie in.
pub const MAX_YEAR: i32 = 262142;

/// A calendar date of the proleptic Gregorian calendar.
#[derive(Clone, Copy, Debug, PartialEq, Eq, Structural)]
pub struct Date {
    pub year: i32,
    pub month: u32,
    pub day: u32,
}

/// Whether `year` has a 29 February.
pub open spec fn is_leap_year(year: int) -> bool {
    year % 4 == 0 && (year % 100 != 0 || year % 400 == 0)
}

/// Number of days of month `month` (1 to 12) in `year`.
pub open spec fn days_in_month(year: int, month: int) -> int {
    if month == 2 {
        if is_leap_year(year) { 29 } else { 28 }
    } else if month == 4 || month == 6 || month == 9 || month == 11 {
        30
    } else {
        31
    }
}

/// Number of days of `year` that lie before the first day of `month`.
pub open spec fn days_before_month(year: int, month: int) -> int
    decreases month,
{
    if month <= 1 {
        0
    } else {
        days_before_month(year, month - 1) + days_in_month(year, month - 1)
    }
}

/// Number of days from 1 January of year 1 up to, and without, 1 January of
/// `year`; negative for years before year 1.
pub open spec fn days_before_year(year: int) -> int {
    let y = year - 1;
    365 * y + y / 4 - y / 100 + y / 400
}

/// Day count of the triple: 1 for 1 January of year 1.
pub open spec fn day_number_of(year: int, month: int, day: int) -> int {
    days_before_year(year) + days_before_month(year, month) + day
}

/// Day number of the first date that can be represented.
pub open spec fn min_day_number() -> int {
    day_number_of(MIN_YEAR as int, 1, 1)
}

/// Day number of the last date that can be represented.
pub open spec fn max_day_number() -> int {
    day_number_of(MAX_YEAR as int, 12, 31)
}

impl Date {
    /// The date names a day that exists, in a year that can be represented.
    pub open spec fn wf(self) -> bool {
        &&& MIN_YEAR <= self.year <= MAX_YEAR
        &&& 1 <= self.month <= 12
        &&& 1 <= self.day <= days_in_month(self.year as int, self.month as int)
    }

    /// Days since the day before 1 January of year 1.
    pub open spec fn day_number(self) -> int {
        day_number_of(self.year as int, self.month as int, self.day as int)
    }

    /// `self` is an earlier day than `other`, by year, then month, then day.
    pub open spec fn is_before(self, other: Date) -> bool {
        ||| self.year < other.year
        ||| (self.year == other.year && self.month < other.month)
        ||| (self.year == other.year && self.month == other.month && self.day < other.day)
    }

    /// The date `months` calendar months after `self` (before, if negative):
    /// the month count is carried into the year, and a day that the target
    /// month lacks becomes that month's last day. `None` when the year leaves
    /// the range that can be represented.
    pub open spec fn spec_shift_months(self, months: int) -> Option<Date> {
        let total = self.month - 1 + months;
        let year = self.year + total / 12;
        let month = total % 12 + 1;
        let last = days_in_month(year, month);
        if MIN_YEAR <= year <= MAX_YEAR {
            Some(
                Date {
                    year: year as i32,
                    month: month as u32,
                    day: if self.day <= last { self.day } else { last as u32 },
                },
            )
        } else {
            None
        }
    }

    /// The date `days` days before `self` (after, if negative): the date
    /// whose day number is lower by `days`. `None` when that day lies outside
    /// the range that can be represented.
    pub open spec fn spec_minus_days(self, days: int) -> Option<Date> {
        let target = self.day_number() - days;
        if min_day_number() <= target <= max_day_number() {
            Some(date_of_day_number(target))
        } else {
            None
        }
    }
}

/// The well-formed date with day number `n`; there is exactly one for each
/// `n` from `min_day_number()` to `max_day_number()`.
pub open spec fn date_of_day_number(n: int) -> Date {
    choose|d: Date| d.wf() && d.day_number() == n
}

/// A year is as long as its twelve months, and the next year starts when it
/// ends.
pub proof fn lemma_year_length(year: int)
    ensures
        days_before_month(year, 13) == if is_leap_year(year) { 366int } else { 365int },
        days_before_year(year + 1) == days_before_year(year) + days_before_month(year, 13),
{
    reveal_with_fuel(days_before_month, 14);
}

/// Later years start later.
pub proof fn lemma_days_before_year_monotonic(a: int, b: int)
    requires
        a <= b,
    ensures
        days_before_year(a) <= days_before_year(b),
    decreases b - a,
{
    if a < b {
        lemma_days_before_year_monotonic(a, b - 1);
        lemma_year_length(b - 1);
    }
}

/// Within a year, a day of an earlier month lies before the first day of any
/// later month.
pub proof fn lemma_days_before_month_monotonic(year: int, a: int, b: int)
    requires
        1 <= a <= b <= 13,
    ensures
        days_before_month(year, a) <= days_before_month(year, b),
        a < b ==> days_before_month(year, a) + days_in_month(year, a) <= days_before_month(
            year,
            b,
        ),
    decreases b - a,
{
    if a < b {
        lemma_days_before_month_monotonic(year, a, b - 1);
    }
}

/// The day number orders dates as the calendar does: an earlier date has a
/// lower day number.
pub proof fn lemma_day_number_strictly_monotonic(a: Date, b: Date)
    requires
        a.wf(),
        b.wf(),
        a.is_before(b),
    ensures
        a.day_number() < b.day_number(),
{
    let ay = a.year as int;
    let by = b.year as int;
    if ay < by {
        lemma_days_before_month_monotonic(ay, a.month as int, 13);
        lemma_year_length(ay);
        lemma_days_before_year_monotonic(ay + 1, by);
        lemma_days_before_month_monotonic(by, 1, b.month as int);
    } else if a.month < b.month {
        lemma_days_before_month_monotonic(ay, a.month as int, b.month as int);
    }
}

/// Two well-formed dates with the same day number are the same date.
pub proof fn lemma_day_number_injective(a: Date, b: Date)
    requires
        a.wf(),
        b.wf(),
        a.day_number() == b.day_number(),
    ensures
        a == b,
{
    if a.is_before(b) {
        lemma_day_number_strictly_monotonic(a, b);
    } else if b.is_before(a) {
        lemma_day_number_strictly_monotonic(b, a);
    }
}

/// Every well-formed date lies between the first and the last day that can
/// be represented.
pub proof fn lemma_day_number_in_range(d: Date)
    requires
        d.wf(),
    ensures
        min_day_number() <= d.day_number() <= max_day_number(),
        -95_746_130 <= min_day_number(),
        max_day_number() <= 95_746_130,
{
    let first = Date { year: MIN_YEAR, month: 1, day: 1 };
    let last = Date { year: MAX_YEAR, month: 12, day: 31 };
    reveal_with_fuel(days_before_month, 14);
    if first.is_before(d) {
        lemma_day_number_strictly_monotonic(first, d);
    }
    if d.is_before(last) {
        lemma_day_number_strictly_monotonic(d, last);
    }
}

/// `date_of_day_number` inverts `day_number` on well-formed dates.
pub proof fn lemma_date_of_day_number(d: Date)
    requires
        d.wf(),
    ensures
        date_of_day_number(d.day_number()) == d,
{
    let c = date_of_day_number(d.day_number());
    lemma_day_number_injective(c, d);
}

/// Every day from the first to the last that can be represented is the day
/// number of a well-formed date, which `date_of_day_number` gives.
pub proof fn lemma_date_of_day_number_exists(n: int)
    requires
        min_day_number() <= n <= max_day_number(),
    ensures
        date_of_day_number(n).wf(),
        date_of_day_number(n).day_number() == n,
    decreases n - min_day_number(),
{
    let first = Date { year: MIN_YEAR, month: 1, day: 1 };
    let last = Date { year: MAX_YEAR, month: 12, day: 31 };
    let witness = if n == min_day_number() {
        first
    } else {
        lemma_date_of_day_number_exists(n - 1);
        let prev = date_of_day_number(n - 1);
        reveal_with_fuel(days_before_month, 2);
        if prev.day < days_in_month(prev.year as int, prev.month as int) {
            Date { year: prev.year, month: prev.month, day: (prev.day + 1) as u32 }
        } else if prev.month < 12 {
            Date { year: prev.year, month: (prev.month + 1) as u32, day: 1 }
        } else {
            lemma_year_length(prev.year as int);
            lemma_days_before_month_monotonic(prev.year as int, 12, 13);
            assert(prev.year < MAX_YEAR) by {
                if prev.year == MAX_YEAR {
                    assert(prev == last);
                }
            }
            Date { year: (prev.year + 1) as i32, month: 1, day: 1 }
        }
    };
    assert(witness.wf() && witness.day_number() == n);
}

/// Moving a date by no month leaves it; moving it back by months gives a
/// date that is not later.
pub proof fn lemma_shift_back_not_later(date: Date, months: int)
    requires
        date.wf(),
        months <= 0,
        date.spec_shift_months(months) is Some,
    ensures
        date.spec_shift_months(0) == Some(date),
        date.spec_shift_months(months).unwrap().wf(),
        date.spec_shift_months(months).unwrap().day_number() <= date.day_number(),
{
    let shifted = date.spec_shift_months(months).unwrap();
    if shifted.is_before(date) {
        lemma_day_number_strictly_monotonic(shifted, date);
    }
}

/// Taking days off a date gives a well-formed date whose day number is lower
/// by that many days.
pub proof fn lemma_minus_days(date: Date, days: int)
    requires
        date.wf(),
        date.spec_minus_days(days) is Some,
    ensures
        date.spec_minus_days(days).unwrap().wf(),
        date.spec_minus_days(days).unwrap().day_number() == date.day_number() - days,
{
    lemma_date_of_day_number_exists(date.day_number() - days);
}

/// Whether `year` has a 29 February.
pub fn leap_year(year: i32) -> (r: bool)
    ensures
        r == is_leap_year(year as int),
{
    year % 4 == 0 && (year % 100 != 0 || year % 400 == 0)
}

/// Number of days of `month` in `year`.
pub fn month_length(year: i32, month: u32) -> (r: u32)
    ensures
        r == days_in_month(year as int, month as int),
{
    if month == 2 {
        if leap_year(year) { 29 } else { 28 }
    } else if month == 4 || month == 6 || month == 9 || month == 11 {
        30
    } else {
        31
    }
}

/// `chronoutil::shift_months` on a `chrono::NaiveDate`: the date moved by
/// `months` calendar months, the day clamped to the target month's last day.
/// The call panics when the target year cannot be represented, and its sum of
/// month and shift must fit in an `i32`; both are left out here.
#[verifier::external_body]
fn shift_months_unchecked(date: Date, months: i32) -> (r: Date)
    requires
        date.wf(),
        months <= i32::MAX - 12,
        date.spec_shift_months(months as int) is Some,
    ensures
        Some(r) == date.spec_shift_months(months as int),
{
    let from = NaiveDate::from_ymd_opt(date.year, date.month, date.day).unwrap();
    let to = chronoutil::shift_months(from, months);
    Date { year: to.year(), month: to.month(), day: to.day() }
}

/// `chrono::NaiveDate::checked_sub_signed` with a `chrono::TimeDelta` of
/// `days` whole days: the date that many days earlier, or `None` when that
/// day lies outside `NaiveDate::MIN ..= NaiveDate::MAX` (a day count too
/// large for a `TimeDelta` always leads outside).
#[verifier::external_body]
fn checked_minus_days(date: Date, days: i64) -> (r: Option<Date>)
    requires
        date.wf(),
    ensures
        match r {
            Some(d) => d.wf() && d.day_number() == date.day_number() - days,
            None => !(min_day_number() <= date.day_number() - days <= max_day_number()),
        },
{
    let from = NaiveDate::from_ymd_opt(date.year, date.month, date.day).unwrap();
    let to = from.checked_sub_signed(TimeDelta::try_days(days)?)?;
    Some(Date { year: to.year(), month: to.month(), day: to.day() })
}

/// `chrono::NaiveDate - chrono::NaiveDate`, then `TimeDelta::num_days`: the
/// signed number of days from `earlier` to `later`.
#[verifier::external_body]
fn days_from_to(earlier: Date, later: Date) -> (r: i64)
    requires
        earlier.wf(),
        later.wf(),
    ensures
        r == later.day_number() - earlier.day_number(),
{
    let from = NaiveDate::from_ymd_opt(earlier.year, earlier.month, earlier.day).unwrap();
    let to = NaiveDate::from_ymd_opt(later.year, later.month, later.day).unwrap();
    (to - from).num_days()
}

impl Date {
    /// The date `year`-`month`-`day`, if that day exists and the year can be
    /// represented.
    pub fn new(year: i32, month: u32, day: u32) -> (r: Option<Date>)
        ensures
            r == if (Date { year, month, day }).wf() {
                Some(Date { year, month, day })
            } else {
                None
            },
    {
        let date = Date { year, month, day };
        if date.is_valid() {
            Some(date)
        } else {
            None
        }
    }

    /// Whether the date is well formed.
    pub fn is_valid(&self) -> (r: bool)
        ensures
            r == self.wf(),
    {
        MIN_YEAR <= self.year && self.year <= MAX_YEAR && 1 <= self.month && self.month <= 12
            && 1 <= self.day && self.day <= month_length(self.year, self.month)
    }

    /// Moves the date by `months` calendar months, backwards if negative.
    pub fn shift_months(self, months: i64) -> (r: Option<Date>)
        requires
            self.wf(),
        ensures
            r == self.spec_shift_months(months as int),
            r matches Some(d) ==> d.wf(),
    {
        if months < -6_400_000 || months > 6_400_000 {
            return None;
        }
        let total: i64 = self.month as i64 - 1 + months;
        let years: i64 = if total >= 0 {
            total / 12
        } else {
            -((11 - total) / 12)
        };
        let year: i64 = self.year as i64 + years;
        if year < MIN_YEAR as i64 || year > MAX_YEAR as i64 {
            None
        } else {
            Some(shift_months_unchecked(self, months as i32))
        }
    }

    /// The date `days` days before this one, after it if `days` is negative.
    pub fn minus_days(self, days: i64) -> (r: Option<Date>)
        requires
            self.wf(),
        ensures
            r == self.spec_minus_days(days as int),
            r matches Some(d) ==> d.wf(),
    {
        let r = checked_minus_days(self, days);
        proof {
            if let Some(d) = r {
                lemma_day_number_in_range(d);
                lemma_date_of_day_number(d);
            }
        }
        r
    }

    /// Signed number of days from `earlier` to this date.
    pub fn days_since(self, earlier: Date) -> (r: i64)
        requires
            self.wf(),
            earlier.wf(),
        ensures
            r == self.day_number() - earlier.day_number(),
    {
        days_from_to(earlier, self)
    }
}

} // verus!
