//! Calendar dates of birth: the proleptic Gregorian calendar within the years that
//! `chrono::NaiveDate` represents, day counts, ordering and the `YYYY-MM-DD` text.
use chrono::{Datelike, NaiveDate};
use vstd::prelude::*;

use crate::text::zero_padded;

use crate::text::{push_signed_zero_padded, push_zero_padded, signed_zero_padded};

verus! {

/// The earliest year that `chrono::NaiveDate` represents.
pub const MIN_YEAR: i32 = -262143;

/// The latest year that `chrono::NaiveDate` represents.
pub const MAX_YEAR: i32 = 262142;

/// Day number (counted from 1 January of year 1 as day 1) of 1 January `MIN_YEAR`.
pub const MIN_DAY_NUMBER: i32 = -95746129;

/// Day number (counted from 1 January of year 1 as day 1) of 31 December `MAX_YEAR`.
pub const MAX_DAY_NUMBER: i32 = 95745399;

pub open spec fn is_leap_year(y: int) -> bool {
    (y % 4 == 0 && y % 100 != 0) || y % 400 == 0
}

pub open spec fn days_in_month(y: int, m: int) -> int {
    if m == 2 {
        if is_leap_year(y) {
            29
        } else {
            28
        }
    } else if m == 4 || m == 6 || m == 9 || m == 11 {
        30
    } else {
        31
    }
}

pub open spec fn days_in_year(y: int) -> int {
    if is_leap_year(y) {
        366
    } else {
        365
    }
}

/// A day that exists in the proleptic Gregorian calendar and that `chrono::NaiveDate`
/// represents.
pub open spec fn is_calendar_date(y: int, m: int, d: int) -> bool {
    MIN_YEAR <= y <= MAX_YEAR && 1 <= m <= 12 && 1 <= d <= days_in_month(y, m)
}

pub open spec fn is_date(t: (int, int, int)) -> bool {
    is_calendar_date(t.0, t.1, t.2)
}

/// Days of year `y` before the first day of month `m`.
pub open spec fn days_before_month(y: int, m: int) -> int {
    let l: int = if is_leap_year(y) {
        1
    } else {
        0
    };
    if m <= 1 {
        0
    } else if m == 2 {
        31
    } else if m == 3 {
        59 + l
    } else if m == 4 {
        90 + l
    } else if m == 5 {
        120 + l
    } else if m == 6 {
        151 + l
    } else if m == 7 {
        181 + l
    } else if m == 8 {
        212 + l
    } else if m == 9 {
        243 + l
    } else if m == 10 {
        273 + l
    } else if m == 11 {
        304 + l
    } else {
        334 + l
    }
}

/// Days before 1 January of year `y`, counted from 1 January of year 1.
pub open spec fn days_before_year(y: int) -> int {
    365 * (y - 1) + (y - 1) / 4 - (y - 1) / 100 + (y - 1) / 400
}

/// The day number of a date, with 1 January of year 1 as day 1 (as
/// `chrono::Datelike::num_days_from_ce` counts).
pub open spec fn day_number(t: (int, int, int)) -> int {
    days_before_year(t.0) + days_before_month(t.0, t.1) + t.2
}

/// `a` is the same day as `b` or an earlier one.
pub open spec fn date_le(a: (int, int, int), b: (int, int, int)) -> bool {
    a.0 < b.0 || (a.0 == b.0 && (a.1 < b.1 || (a.1 == b.1 && a.2 <= b.2)))
}

/// The year as `chrono` formats `%Y`: four digits with leading zeros for years 0 to 9999,
/// otherwise a sign followed by at least four digits.
pub open spec fn year_text(y: int) -> Seq<char> {
    if 0 <= y <= 9999 {
        zero_padded(y as nat, 4)
    } else if y < 0 {
        seq!['-'] + zero_padded((-y) as nat, 4)
    } else {
        seq!['+'] + zero_padded(y as nat, 4)
    }
}

/// The `%Y-%m-%d` text of a date.
pub open spec fn date_text(t: (int, int, int)) -> Seq<char> {
    year_text(t.0) + seq!['-'] + zero_padded(t.1 as nat, 2) + seq!['-'] + zero_padded(
        t.2 as nat,
        2,
    )
}

proof fn lemma_next_year(y: int)
    ensures
        days_before_year(y + 1) == days_before_year(y) + days_in_year(y),
{
    assert(y / 4 - (y - 1) / 4 == (if y % 4 == 0 {
        1int
    } else {
        0
    }));
    assert(y / 100 - (y - 1) / 100 == (if y % 100 == 0 {
        1int
    } else {
        0
    }));
    assert(y / 400 - (y - 1) / 400 == (if y % 400 == 0 {
        1int
    } else {
        0
    }));
    assert(y % 100 == 0 ==> y % 4 == 0);
    assert(y % 400 == 0 ==> y % 100 == 0);
}

proof fn lemma_years_increase(a: int, b: int)
    requires
        a < b,
    ensures
        days_before_year(a) + days_in_year(a) <= days_before_year(b),
    decreases b - a,
{
    lemma_next_year(a);
    if a + 1 < b {
        lemma_years_increase(a + 1, b);
        lemma_next_year(a + 1);
    }
}

proof fn lemma_day_of_year_bounds(t: (int, int, int))
    requires
        is_date(t),
    ensures
        1 <= days_before_month(t.0, t.1) + t.2 <= days_in_year(t.0),
{
}

proof fn lemma_within_year(a: (int, int, int), b: (int, int, int))
    requires
        is_date(a),
        is_date(b),
        a.0 == b.0,
        a.1 < b.1,
    ensures
        days_before_month(a.0, a.1) + a.2 < days_before_month(b.0, b.1) + b.2,
{
}

/// The day number grows with the date: one date is on or before another exactly
/// when its day number is no larger.
pub proof fn lemma_day_number_order(a: (int, int, int), b: (int, int, int))
    requires
        is_date(a),
        is_date(b),
    ensures
        date_le(a, b) <==> day_number(a) <= day_number(b),
        day_number(a) == day_number(b) <==> a == b,
{
    if a != b {
        if date_le(a, b) {
            lemma_strictly_earlier(a, b);
        } else {
            lemma_strictly_earlier(b, a);
        }
    }
}

proof fn lemma_strictly_earlier(a: (int, int, int), b: (int, int, int))
    requires
        is_date(a),
        is_date(b),
        date_le(a, b),
        a != b,
    ensures
        day_number(a) < day_number(b),
{
    if a.0 < b.0 {
        lemma_day_of_year_bounds(a);
        lemma_day_of_year_bounds(b);
        lemma_years_increase(a.0, b.0);
    } else if a.1 < b.1 {
        lemma_within_year(a, b);
    }
}

/// Every date's day number lies between those of the first and the last date
/// that `chrono::NaiveDate` represents.
pub proof fn lemma_day_number_range(t: (int, int, int))
    requires
        is_date(t),
    ensures
        MIN_DAY_NUMBER <= day_number(t) <= MAX_DAY_NUMBER,
{
    assert(day_number((MIN_YEAR as int, 1, 1)) == MIN_DAY_NUMBER);
    assert(day_number((MAX_YEAR as int, 12, 31)) == MAX_DAY_NUMBER);
    lemma_day_number_order((MIN_YEAR as int, 1, 1), t);
    lemma_day_number_order(t, (MAX_YEAR as int, 12, 31));
}

/// A date of birth: a day of the proleptic Gregorian calendar.
#[derive(Debug, Clone, Copy, PartialEq, Eq, PartialOrd, Ord, Hash)]
pub struct DateOfBirth {
    year: i32,
    month: u32,
    day: u32,
}

/// Why a year, month and day do not make a date.
#[derive(Debug, Clone, PartialEq, Eq)]
pub enum DateOfBirthError {
    InvalidCalendarDate { year: i32, month: u32, day: u32 },
}

impl View for DateOfBirth {
    type V = (int, int, int);

    closed spec fn view(&self) -> (int, int, int) {
        (self.year as int, self.month as int, self.day as int)
    }
}

/// `chrono::NaiveDate::from_ymd_opt` gives a date exactly for the days of the calendar
/// within its year range; this reports whether it does.
#[verifier::external_body]
fn chrono_date_exists(year: i32, month: u32, day: u32) -> (r: bool)
    ensures
        r == is_calendar_date(year as int, month as int, day as int),
{
    NaiveDate::from_ymd_opt(year, month, day).is_some()
}

/// `chrono::Datelike::num_days_from_ce` counts days from 1 January of year 1 as day 1.
#[verifier::external_body]
fn chrono_num_days_from_ce(year: i32, month: u32, day: u32) -> (r: i32)
    requires
        is_calendar_date(year as int, month as int, day as int),
    ensures
        r as int == day_number((year as int, month as int, day as int)),
{
    NaiveDate::from_ymd_opt(year, month, day).unwrap().num_days_from_ce()
}

/// `chrono::NaiveDate::from_num_days_from_ce_opt` gives the date with a day number,
/// for every day number within the represented years, and `None` outside them.
#[verifier::external_body]
fn chrono_from_num_days_from_ce(days: i32) -> (r: Option<(i32, u32, u32)>)
    ensures
        r matches Some(t) ==> is_calendar_date(t.0 as int, t.1 as int, t.2 as int)
            && day_number((t.0 as int, t.1 as int, t.2 as int)) == days,
        MIN_DAY_NUMBER <= days <= MAX_DAY_NUMBER ==> r is Some,
{
    NaiveDate::from_num_days_from_ce_opt(days).map(|d| (d.year(), d.month(), d.day()))
}

/// `chrono::NaiveDate::checked_sub_signed` with a whole number of days: the date that
/// many days earlier, where it lies within the represented years.
#[verifier::external_body]
fn chrono_checked_sub_days(year: i32, month: u32, day: u32, days: i64) -> (r: Option<
    (i32, u32, u32),
>)
    requires
        is_calendar_date(year as int, month as int, day as int),
        0 <= days <= 1_000_000,
    ensures
        r matches Some(t) ==> is_calendar_date(t.0 as int, t.1 as int, t.2 as int)
            && day_number((t.0 as int, t.1 as int, t.2 as int)) == day_number(
            (year as int, month as int, day as int),
        ) - days,
        MIN_DAY_NUMBER <= day_number((year as int, month as int, day as int)) - days
            ==> r is Some,
{
    NaiveDate::from_ymd_opt(year, month, day).unwrap().checked_sub_signed(
        chrono::Duration::days(days),
    ).map(|d| (d.year(), d.month(), d.day()))
}

/// Today's date in the local time zone (`chrono::Local::now().date_naive()`): some
/// calendar date, which depends on the clock.
#[verifier::external_body]
fn chrono_local_today() -> (r: (i32, u32, u32))
    ensures
        is_calendar_date(r.0 as int, r.1 as int, r.2 as int),
{
    let today = chrono::Local::now().date_naive();
    (today.year(), today.month(), today.day())
}

/// `chrono`'s `%Y-%m-%d` formatting of a date.
#[verifier::external_body]
fn chrono_format_ymd(year: i32, month: u32, day: u32) -> (r: String)
    requires
        is_calendar_date(year as int, month as int, day as int),
    ensures
        r@ == date_text((year as int, month as int, day as int)),
{
    NaiveDate::from_ymd_opt(year, month, day).unwrap().format("%Y-%m-%d").to_string()
}

impl DateOfBirth {
    #[verifier::type_invariant]
    spec fn is_valid(self) -> bool {
        is_calendar_date(self.year as int, self.month as int, self.day as int)
    }

    /// The date with the given year, month and day, or the error that names them where
    /// no such day exists.
    pub fn new(year: i32, month: u32, day: u32) -> (r: Result<Self, DateOfBirthError>)
        ensures
            match r {
                Ok(d) => is_calendar_date(year as int, month as int, day as int) && d@ == (
                    year as int,
                    month as int,
                    day as int,
                ),
                Err(e) => !is_calendar_date(year as int, month as int, day as int) && e
                    == DateOfBirthError::InvalidCalendarDate { year, month, day },
            },
    {
        if chrono_date_exists(year, month, day) {
            Ok(DateOfBirth { year, month, day })
        } else {
            Err(DateOfBirthError::InvalidCalendarDate { year, month, day })
        }
    }

    pub(crate) fn from_valid(t: (i32, u32, u32)) -> (r: Self)
        requires
            is_calendar_date(t.0 as int, t.1 as int, t.2 as int),
        ensures
            r@ == (t.0 as int, t.1 as int, t.2 as int),
    {
        DateOfBirth { year: t.0, month: t.1, day: t.2 }
    }

    pub fn year(&self) -> (r: i32)
        ensures
            r == self@.0,
            is_date(self@),
    {
        proof {
            use_type_invariant(self);
        }
        self.year
    }

    pub fn month(&self) -> (r: u32)
        ensures
            r == self@.1,
            is_date(self@),
    {
        proof {
            use_type_invariant(self);
        }
        self.month
    }

    pub fn day(&self) -> (r: u32)
        ensures
            r == self@.2,
            is_date(self@),
    {
        proof {
            use_type_invariant(self);
        }
        self.day
    }

    /// Whether this date lies strictly after `other`.
    pub(crate) fn is_after(&self, other: &DateOfBirth) -> (r: bool)
        ensures
            r == !date_le(self@, other@),
            is_date(self@),
            is_date(other@),
    {
        proof {
            use_type_invariant(self);
            use_type_invariant(other);
        }
        self.year > other.year || (self.year == other.year && (self.month > other.month || (
        self.month == other.month && self.day > other.day)))
    }

    /// The day number, with 1 January of year 1 as day 1.
    pub(crate) fn day_number(&self) -> (r: i32)
        ensures
            r == day_number(self@),
            is_date(self@),
    {
        proof {
            use_type_invariant(self);
        }
        chrono_num_days_from_ce(self.year, self.month, self.day)
    }

    /// The date with the given day number, where one exists.
    pub(crate) fn from_day_number(n: i32) -> (r: Option<Self>)
        ensures
            r matches Some(d) ==> day_number(d@) == n && is_date(d@),
            MIN_DAY_NUMBER <= n <= MAX_DAY_NUMBER ==> r is Some,
    {
        match chrono_from_num_days_from_ce(n) {
            Some(t) => Some(DateOfBirth { year: t.0, month: t.1, day: t.2 }),
            None => None,
        }
    }

    /// The date `days` days earlier, or the first date that `chrono::NaiveDate`
    /// represents where that one would lie before it.
    pub(crate) fn days_earlier_or_first(&self, days: i64) -> (r: Self)
        requires
            0 <= days <= 1_000_000,
        ensures
            MIN_DAY_NUMBER <= day_number(self@) - days ==> day_number(r@) == day_number(self@)
                - days,
            day_number(self@) - days < MIN_DAY_NUMBER ==> r@ == (MIN_YEAR as int, 1int, 1int),
            is_date(r@),
    {
        proof {
            use_type_invariant(self);
        }
        match chrono_checked_sub_days(self.year, self.month, self.day, days) {
            Some(t) => {
                proof {
                    lemma_day_number_range((t.0 as int, t.1 as int, t.2 as int));
                }
                DateOfBirth { year: t.0, month: t.1, day: t.2 }
            },
            None => DateOfBirth { year: MIN_YEAR, month: 1, day: 1 },
        }
    }

    /// The date as `YYYY-MM-DD`.
    pub fn to_string(&self) -> (r: String)
        ensures
            r@ == date_text(self@),
    {
        proof {
            use_type_invariant(self);
        }
        chrono_format_ymd(self.year, self.month, self.day)
    }
}

/// Today's date in the local time zone.
pub(crate) fn local_today() -> (r: DateOfBirth)
    ensures
        is_date(r@),
{
    let t = chrono_local_today();
    DateOfBirth { year: t.0, month: t.1, day: t.2 }
}

/// The message of an error.
pub open spec fn date_of_birth_error_text(e: DateOfBirthError) -> Seq<char> {
    match e {
        DateOfBirthError::InvalidCalendarDate { year, month, day } => signed_zero_padded(year as int, 4) + "-"@ + zero_padded(month as nat, 2) + "-"@ + zero_padded(day as nat, 2) + " is not a valid calendar date"@,
    }
}

impl DateOfBirthError {
    /// The message of the error.
    pub fn to_string(&self) -> (r: String)
        ensures
            r@ == date_of_birth_error_text(*self),
    {
        let r = match self {
            DateOfBirthError::InvalidCalendarDate { year, month, day } => {
                let mut s = String::new();
                push_signed_zero_padded(&mut s, *year as i64, 4);
                s.append("-");
                push_zero_padded(&mut s, *month as u64, 2);
                s.append("-");
                push_zero_padded(&mut s, *day as u64, 2);
                s.append(" is not a valid calendar date");
                s
            },
        };
        proof {
            assert(r@ =~= date_of_birth_error_text(*self));
        }
        r
    }
}

} // verus!
