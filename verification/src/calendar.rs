//! Calendar dates of the proleptic Gregorian calendar, and their relation to
//! Unix timestamps.
//!
//! The arithmetic of the calendar is stated here as spec functions; the
//! conversions themselves are made by `chrono`.

use crate::text::padded;
use chrono::{DateTime, Datelike, NaiveDate};
use vstd::prelude::*;

verus! {

/// The first year that a date can have.
pub const MIN_YEAR: i32 = -262_143;

/// The last year that a date can have.
pub const MAX_YEAR: i32 = 262_142;

/// The seconds of one day.
pub const SECONDS_PER_DAY: i64 = 86_400;

/// Whether `year` has a 29th of February.
pub open spec fn is_leap(year: int) -> bool {
    year % 4 == 0 && (year % 100 != 0 || year % 400 == 0)
}

/// The number of days of a month.
pub open spec fn days_in_month(year: int, month: int) -> int {
    if month == 2 {
        if is_leap(year) {
            29
        } else {
            28
        }
    } else if month == 4 || month == 6 || month == 9 || month == 11 {
        30
    } else {
        31
    }
}

/// The number of days of `year` that lie before the first of `month`.
pub open spec fn days_before_month(year: int, month: int) -> int
    decreases month,
{
    if month <= 1 {
        0
    } else {
        days_before_month(year, month - 1) + days_in_month(year, month - 1)
    }
}

/// A count that grows by one with every leap year.
pub open spec fn leaps_through(year: int) -> int {
    year / 4 - year / 100 + year / 400
}

/// The number of days from 1 January 1970 to 1 January of `year`
/// (negative before 1970).
pub open spec fn days_before_year(year: int) -> int {
    365 * (year - 1970) + leaps_through(year - 1) - leaps_through(1969)
}

/// A calendar date as three numbers.
pub struct Ymd {
    pub year: int,
    pub month: int,
    pub day: int,
}

impl Ymd {
    /// The date exists, in a year that a `Date` can have.
    pub open spec fn valid(self) -> bool {
        &&& MIN_YEAR <= self.year <= MAX_YEAR
        &&& 1 <= self.month <= 12
        &&& 1 <= self.day <= days_in_month(self.year, self.month)
    }

    /// The number of days from 1 January 1970 to this date.
    pub open spec fn day_number(self) -> int {
        days_before_year(self.year) + days_before_month(self.year, self.month) + self.day - 1
    }

    /// The date as text: the year in at least four digits, after a sign where
    /// it is negative or has more than four digits, then month and day in two
    /// digits each, with hyphens between.
    pub open spec fn text(self) -> Seq<char> {
        let year = if self.year < 0 {
            seq!['-'] + padded((-self.year) as nat, 4)
        } else if self.year > 9999 {
            seq!['+'] + padded(self.year as nat, 4)
        } else {
            padded(self.year as nat, 4)
        };
        year + seq!['-'] + padded(self.month as nat, 2) + seq!['-'] + padded(self.day as nat, 2)
    }
}

/// The Unix timestamp of a time of day on a date.
pub open spec fn timestamp_at(date: Ymd, hour: int, minute: int, second: int) -> int {
    SECONDS_PER_DAY * date.day_number() + 3600 * hour + 60 * minute + second
}

/// The first second of `year`.
pub open spec fn year_start(year: int) -> int {
    SECONDS_PER_DAY * days_before_year(year)
}

/// A calendar date that exists.
#[derive(Clone, Copy, Debug, PartialEq, Eq)]
pub struct Date {
    year: i32,
    month: u32,
    day: u32,
}

impl View for Date {
    type V = Ymd;

    closed spec fn view(&self) -> Ymd {
        Ymd { year: self.year as int, month: self.month as int, day: self.day as int }
    }
}

/// Whether `year` has a 29th of February.
pub fn leap_year(year: i32) -> (leap: bool)
    ensures
        leap == is_leap(year as int),
{
    year % 4 == 0 && (year % 100 != 0 || year % 400 == 0)
}

/// The number of days of a month.
pub fn month_length(year: i32, month: u32) -> (days: u32)
    ensures
        days == days_in_month(year as int, month as int),
{
    if month == 2 {
        if leap_year(year) {
            29
        } else {
            28
        }
    } else if month == 4 || month == 6 || month == 9 || month == 11 {
        30
    } else {
        31
    }
}

impl Date {
    #[verifier::type_invariant]
    spec fn inv(self) -> bool {
        self@.valid()
    }

    /// The date of the given year, month and day, if there is one.
    pub fn from_ymd(year: i32, month: u32, day: u32) -> (date: Option<Date>)
        ensures
            match date {
                Some(d) => d@ == (Ymd { year: year as int, month: month as int, day: day as int })
                    && d@.valid(),
                None => !(Ymd { year: year as int, month: month as int, day: day as int }).valid(),
            },
    {
        if year < MIN_YEAR || year > MAX_YEAR || month < 1 || month > 12 || day < 1 {
            return None;
        }
        if day > month_length(year, month) {
            return None;
        }
        Some(Date { year, month, day })
    }

    /// The year.
    pub fn year(&self) -> (year: i32)
        ensures
            year == self@.year,
            self@.valid(),
    {
        proof {
            use_type_invariant(self);
        }
        self.year
    }

    /// The month, from 1 to 12.
    pub fn month(&self) -> (month: u32)
        ensures
            month == self@.month,
            self@.valid(),
    {
        proof {
            use_type_invariant(self);
        }
        self.month
    }

    /// The day of the month, from 1.
    pub fn day(&self) -> (day: u32)
        ensures
            day == self@.day,
            self@.valid(),
    {
        proof {
            use_type_invariant(self);
        }
        self.day
    }
}

/// `chrono`'s timestamp of a time of day on a date, taken as UTC
/// (`NaiveDate::and_hms_opt`, then `DateTime::timestamp`): the whole days
/// since 1 January 1970 in seconds, plus the seconds since midnight. The
/// contract leaves out the times of day that `chrono` refuses.
#[verifier::external_body]
fn chrono_timestamp(date: &Date, hour: u32, minute: u32, second: u32) -> (t: i64)
    requires
        date@.valid(),
        hour < 24,
        minute < 60,
        second < 60,
    ensures
        t == timestamp_at(date@, hour as int, minute as int, second as int),
{
    NaiveDate::from_ymd_opt(date.year, date.month, date.day).unwrap().and_hms_opt(
        hour,
        minute,
        second,
    ).unwrap().and_utc().timestamp()
}

/// `chrono`'s date of a Unix timestamp (`DateTime::from_timestamp`, then
/// `date_naive`): the one date whose day number is the timestamp's whole
/// number of days, rounded down. The contract leaves out the timestamps
/// outside the years that `chrono` can hold.
#[verifier::external_body]
fn chrono_date(t: i64) -> (date: Date)
    requires
        year_start(MIN_YEAR as int) <= t < year_start(MAX_YEAR + 1),
    ensures
        date@.valid(),
        date@.day_number() == (t as int) / (SECONDS_PER_DAY as int),
{
    let d = DateTime::from_timestamp(t, 0).unwrap().date_naive();
    Date { year: d.year(), month: d.month(), day: d.day() }
}

/// `chrono`'s text of a date under the format `%Y-%m-%d`
/// (`NaiveDate::format`): as `Ymd::text` states it.
#[verifier::external_body]
fn chrono_format(date: &Date) -> (s: String)
    requires
        date@.valid(),
    ensures
        s@ == date@.text(),
{
    NaiveDate::from_ymd_opt(date.year, date.month, date.day).unwrap().format("%Y-%m-%d").to_string()
}

/// The date as text, `YYYY-MM-DD`.
pub fn date_str(date: &Date) -> (s: String)
    ensures
        s@ == date@.text(),
        date@.valid(),
{
    proof {
        use_type_invariant(date);
    }
    chrono_format(date)
}

/// A year has 365 days, and one more if it is a leap year.
pub proof fn lemma_year_length(year: int)
    ensures
        days_before_year(year + 1) == days_before_year(year) + days_before_month(year, 13),
        days_before_month(year, 13) == if is_leap(year) {
            366int
        } else {
            365int
        },
{
    reveal_with_fuel(days_before_month, 14);
}

/// Later years begin later.
pub proof fn lemma_years_ordered(a: int, b: int)
    requires
        a <= b,
    ensures
        days_before_year(a) <= days_before_year(b),
        a < b ==> days_before_year(a) + 365 <= days_before_year(b),
    decreases b - a,
{
    if a < b {
        lemma_years_ordered(a, b - 1);
        lemma_year_length(b - 1);
    }
}

/// A date lies within its year.
pub proof fn lemma_date_within_year(date: Ymd)
    requires
        date.valid(),
    ensures
        days_before_year(date.year) <= date.day_number() < days_before_year(date.year + 1),
{
    reveal_with_fuel(days_before_month, 14);
    lemma_year_length(date.year);
}

/// A date whose day lies between the first second of `year_min` and the
/// last second of `year_max` has its year between the two.
pub proof fn lemma_year_between(date: Ymd, t: int, year_min: int, year_max: int)
    requires
        date.valid(),
        date.day_number() == t / (SECONDS_PER_DAY as int),
        year_start(year_min) <= t < year_start(year_max + 1),
    ensures
        year_min <= date.year <= year_max,
{
    lemma_date_within_year(date);
    let n = date.day_number();
    assert(SECONDS_PER_DAY * n <= t < SECONDS_PER_DAY * n + SECONDS_PER_DAY);
    if date.year < year_min {
        lemma_years_ordered(date.year + 1, year_min);
    }
    if date.year > year_max {
        lemma_years_ordered(year_max + 1, date.year);
    }
}

/// The Unix timestamp of the first second of `year`.
pub fn first_second_of_year(year: i32) -> (t: i64)
    requires
        MIN_YEAR <= year <= MAX_YEAR,
    ensures
        t == year_start(year as int),
{
    let date = Date { year, month: 1, day: 1 };
    chrono_timestamp(&date, 0, 0, 0)
}

/// The Unix timestamp of the last second of `year`.
pub fn last_second_of_year(year: i32) -> (t: i64)
    requires
        MIN_YEAR <= year <= MAX_YEAR,
    ensures
        t == year_start(year + 1) - 1,
{
    proof {
        reveal_with_fuel(days_before_month, 14);
        lemma_year_length(year as int);
    }
    let date = Date { year, month: 12, day: 31 };
    chrono_timestamp(&date, 23, 59, 59)
}

/// The date on which the second `t` of Unix time falls.
pub fn date_of_timestamp(t: i64) -> (date: Date)
    requires
        year_start(MIN_YEAR as int) <= t < year_start(MAX_YEAR + 1),
    ensures
        date@.valid(),
        date@.day_number() == (t as int) / (SECONDS_PER_DAY as int),
{
    chrono_date(t)
}

} // verus!
