//! Proleptic Gregorian calendar arithmetic, counted in days from 1970-01-01.

use vstd::prelude::*;

verus! {

/// The year in which day number zero falls.
pub const EPOCH_YEAR: u64 = 1970;

/// The Gregorian leap-year rule: every fourth year, except century years
/// that are not multiples of 400.
pub open spec fn leap_year(year: int) -> bool {
    year % 4 == 0 && (year % 100 != 0 || year % 400 == 0)
}

/// The number of days in `year`.
pub open spec fn year_length(year: int) -> int {
    if leap_year(year) {
        366
    } else {
        365
    }
}

/// The number of days in month `month` (1 to 12) of `year`; zero for any
/// other month number.
pub open spec fn month_length(year: int, month: int) -> int {
    if month < 1 || month > 12 {
        0
    } else if month == 2 {
        if leap_year(year) {
            29
        } else {
            28
        }
    } else if month == 4 || month == 6 || month == 9 || month == 11 {
        30
    } else {
        31
    }
}

/// The days that lie between 1970-01-01 and the first day of `year`.
pub open spec fn days_before_year(year: int) -> int
    decreases year,
{
    if year <= 1970 {
        0
    } else {
        days_before_year(year - 1) + year_length(year - 1)
    }
}

/// The days of `year` that lie before the first day of `month`.
pub open spec fn days_before_month(year: int, month: int) -> int
    decreases month,
{
    if month <= 1 {
        0
    } else {
        days_before_month(year, month - 1) + month_length(year, month - 1)
    }
}

/// A calendar date.
#[derive(Clone, Copy, Debug, PartialEq, Eq, Structural)]
pub struct Date {
    pub year: u64,
    pub month: u64,
    pub day: u64,
}

impl Date {
    /// The date names a day that exists: a month from 1 to 12 and a day
    /// within that month.
    pub open spec fn valid(self) -> bool {
        1 <= self.day <= month_length(self.year as int, self.month as int)
    }

    /// The date's distance in days from 1970-01-01, for a date on or after
    /// it.
    pub open spec fn day_number(self) -> int {
        days_before_year(self.year as int) + days_before_month(
            self.year as int,
            self.month as int,
        ) + self.day - 1
    }

    /// Whether the date names an existing day.
    pub fn is_valid(&self) -> (ok: bool)
        ensures
            ok == self.valid(),
    {
        1 <= self.day && self.day <= days_in_month(self.year, self.month)
    }
}

/// The date that lies `day` days after 1970-01-01.
pub open spec fn date_of_day(day: nat) -> Date {
    choose|date: Date| date.valid() && date.year >= 1970 && date.day_number() == day
}

/// Whether `year` is a leap year of the Gregorian calendar.
pub fn is_leap_year(year: u64) -> (leap: bool)
    ensures
        leap == leap_year(year as int),
{
    if year % 4 != 0 {
        false
    } else if year % 100 != 0 {
        true
    } else if year % 400 != 0 {
        false
    } else {
        true
    }
}

/// The number of days in `year`.
pub fn days_in_year(year: u64) -> (days: u64)
    ensures
        days == year_length(year as int),
{
    if is_leap_year(year) {
        366
    } else {
        365
    }
}

/// The number of days in month `month` of `year`, or zero where `month` is
/// not a month number.
pub fn days_in_month(year: u64, month: u64) -> (days: u64)
    ensures
        days == month_length(year as int, month as int),
{
    if month < 1 || month > 12 {
        0
    } else if month == 2 {
        if is_leap_year(year) {
            29
        } else {
            28
        }
    } else if month == 4 || month == 6 || month == 9 || month == 11 {
        30
    } else {
        31
    }
}

/// A year's months add up to the year.
pub proof fn lemma_months_fill_year(year: int)
    ensures
        days_before_month(year, 13) == year_length(year),
{
    reveal_with_fuel(days_before_month, 14);
}

/// The days before a month grow with the month, and stay within the year.
pub proof fn lemma_days_before_month_bounds(year: int, month: int)
    requires
        1 <= month <= 12,
    ensures
        0 <= days_before_month(year, month),
        days_before_month(year, month) + month_length(year, month) == days_before_month(
            year,
            month + 1,
        ),
        days_before_month(year, month + 1) <= year_length(year),
{
    reveal_with_fuel(days_before_month, 14);
}

/// The days before a year grow with the year, by at least 365 a year.
pub proof fn lemma_days_before_year_grows(earlier: int, later: int)
    requires
        1970 <= earlier <= later,
    ensures
        days_before_year(earlier) + 365 * (later - earlier) <= days_before_year(later),
        0 <= days_before_year(earlier),
    decreases later - earlier,
{
    if earlier < later {
        lemma_days_before_year_grows(earlier, later - 1);
    } else {
        lemma_days_before_year_nonnegative(earlier);
    }
}

proof fn lemma_days_before_year_nonnegative(year: int)
    ensures
        0 <= days_before_year(year),
    decreases year,
{
    if year > 1970 {
        lemma_days_before_year_nonnegative(year - 1);
    }
}

/// A valid date's day number lies within its year.
pub proof fn lemma_day_number_within_year(date: Date)
    requires
        date.valid(),
    ensures
        days_before_year(date.year as int) <= date.day_number() < days_before_year(
            date.year as int,
        ) + year_length(date.year as int),
{
    lemma_days_before_month_bounds(date.year as int, date.month as int);
}

/// The days before a month grow strictly with the month.
proof fn lemma_days_before_month_grows(year: int, earlier: int, later: int)
    requires
        1 <= earlier < later <= 12,
    ensures
        days_before_month(year, earlier) + month_length(year, earlier) <= days_before_month(
            year,
            later,
        ),
    decreases later - earlier,
{
    lemma_days_before_month_bounds(year, earlier);
    if earlier + 1 < later {
        lemma_days_before_month_grows(year, earlier + 1, later);
        lemma_days_before_month_bounds(year, earlier + 1);
    }
}

/// No two valid dates on or after 1970-01-01 share a day number.
pub proof fn lemma_day_number_injective(a: Date, b: Date)
    requires
        a.valid(),
        b.valid(),
        a.year >= 1970,
        b.year >= 1970,
        a.day_number() == b.day_number(),
    ensures
        a == b,
{
    lemma_day_number_within_year(a);
    lemma_day_number_within_year(b);
    if a.year < b.year {
        lemma_days_before_year_grows(a.year as int + 1, b.year as int);
    } else if b.year < a.year {
        lemma_days_before_year_grows(b.year as int + 1, a.year as int);
    } else if a.month < b.month {
        lemma_days_before_month_grows(a.year as int, a.month as int, b.month as int);
    } else if b.month < a.month {
        lemma_days_before_month_grows(a.year as int, b.month as int, a.month as int);
    }
}

/// `date_of_day` names the one valid date with the given day number.
pub proof fn lemma_date_of_day(date: Date)
    requires
        date.valid(),
        date.year >= 1970,
    ensures
        date_of_day(date.day_number() as nat) == date,
{
    lemma_day_number_within_year(date);
    lemma_days_before_year_grows(1970, date.year as int);
    let found = date_of_day(date.day_number() as nat);
    lemma_day_number_injective(found, date);
}

/// The calendar date of the day that lies `days` days after 1970-01-01.
///
/// The year is found by taking whole years off the day count, the month by
/// taking whole months off what is left of it.
pub fn date_from_days(days: u64) -> (date: Date)
    ensures
        date.valid(),
        date.year >= 1970,
        date.day_number() == days,
        date == date_of_day(days as nat),
{
    let mut year: u64 = EPOCH_YEAR;
    let mut remaining: u64 = days;
    while remaining >= days_in_year(year)
        invariant
            year >= 1970,
            days_before_year(year as int) + remaining == days,
            365 * (year - 1970) <= days - remaining,
        decreases remaining,
    {
        remaining = remaining - days_in_year(year);
        year = year + 1;
    }
    let mut month: u64 = 1;
    while remaining >= days_in_month(year, month)
        invariant
            1 <= month <= 12,
            days_before_year(year as int) + days_before_month(year as int, month as int)
                + remaining == days,
            days_before_month(year as int, month as int) + remaining < year_length(year as int),
        decreases 12 - month,
    {
        proof {
            lemma_days_before_month_bounds(year as int, month as int);
            lemma_months_fill_year(year as int);
        }
        remaining = remaining - days_in_month(year, month);
        month = month + 1;
    }
    let date = Date { year, month, day: remaining + 1 };
    proof {
        lemma_date_of_day(date);
    }
    date
}

} // verus!
