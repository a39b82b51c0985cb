//! Calendar days, as the lessons service is asked for them.
//!
//! A day is held as its year, month and day of the month in the proleptic
//! Gregorian calendar. Writing a day out and reading one from text are done
//! by chrono.

use vstd::prelude::*;
use chrono::{Datelike, Locale, NaiveDate};

verus! {

/// The first year that a day can lie in.
pub const MIN_YEAR: i32 = -262143;

/// The last year that a day can lie in.
pub const MAX_YEAR: i32 = 262142;

/// The pattern in which a day is typed on the command line.
pub const DAY_PATTERN: &'static str = "%Y-%m-%d";

/// A calendar day.
#[derive(Debug, Clone, Copy, PartialEq, Eq)]
pub struct Date {
    pub year: i32,
    pub month: u32,
    pub day: u32,
}

/// The year has a 29th of February.
pub open spec fn leap_year(year: int) -> bool {
    year % 4 == 0 && (year % 100 != 0 || year % 400 == 0)
}

/// The number of days of a month.
pub open spec fn days_in_month(year: int, month: int) -> int {
    if month == 2 {
        if leap_year(year) {
            29
        } else {
            28
        }
    } else if month == 4 || month == 6 || month == 9 || month == 11 {
        30
    } else {
        31
    }
}

/// The three numbers name a day of the calendar.
pub open spec fn valid_date(year: int, month: int, day: int) -> bool {
    &&& MIN_YEAR <= year <= MAX_YEAR
    &&& 1 <= month <= 12
    &&& 1 <= day <= days_in_month(year, month)
}

/// The character of a decimal digit.
pub open spec fn digit(n: int) -> char {
    if n == 0 {
        '0'
    } else if n == 1 {
        '1'
    } else if n == 2 {
        '2'
    } else if n == 3 {
        '3'
    } else if n == 4 {
        '4'
    } else if n == 5 {
        '5'
    } else if n == 6 {
        '6'
    } else if n == 7 {
        '7'
    } else if n == 8 {
        '8'
    } else {
        '9'
    }
}

/// A number below a hundred, in two digits.
pub open spec fn two_digits(n: int) -> Seq<char> {
    seq![digit(n / 10), digit(n % 10)]
}

/// A number below ten thousand, in four digits.
pub open spec fn four_digits(n: int) -> Seq<char> {
    two_digits(n / 100) + two_digits(n % 100)
}

/// A year as ISO 8601 writes it: four digits for the years 0 to 9999, else a
/// sign and at least four digits.
pub open spec fn iso_year(year: int) -> Seq<char> {
    if 0 <= year <= 9999 {
        four_digits(year)
    } else {
        let size = if year < 0 {
            -year
        } else {
            year
        };
        let sign = if year < 0 {
            '-'
        } else {
            '+'
        };
        if size <= 9999 {
            seq![sign] + four_digits(size)
        } else if size <= 99999 {
            seq![sign, digit(size / 10000)] + four_digits(size % 10000)
        } else {
            seq![sign] + two_digits(size / 10000) + four_digits(size % 10000)
        }
    }
}

/// A day as ISO 8601 writes it: year, month and day, with `-` between them.
pub open spec fn iso_date(year: int, month: int, day: int) -> Seq<char> {
    iso_year(year) + seq!['-'] + two_digits(month) + seq!['-'] + two_digits(day)
}

/// The day that chrono reads from a text under a pattern, if it reads one.
pub uninterp spec fn parsed_date(text: Seq<char>, pattern: Seq<char>) -> Option<Date>;

/// A day written out in Italian: the weekday, the day of the month, the
/// month and the year, in chrono's words.
pub uninterp spec fn italian_date(year: int, month: int, day: int) -> Seq<char>;

impl Date {
    /// The numbers name a day of the calendar.
    pub open spec fn valid(&self) -> bool {
        valid_date(self.year as int, self.month as int, self.day as int)
    }

    /// Whether the numbers name a day of the calendar.
    pub fn is_valid(&self) -> (r: bool)
        ensures
            r == self.valid(),
    {
        if self.year < MIN_YEAR || self.year > MAX_YEAR || self.month < 1 || self.month > 12 {
            return false;
        }
        // a multiple of 400 is added, so that the year can be divided unsigned
        let shifted: u32 = (self.year + 262400) as u32;
        let leap: bool = shifted % 4 == 0 && (shifted % 100 != 0 || shifted % 400 == 0);
        assert(leap == leap_year(self.year as int)) by {
            let y = self.year as int;
            assert((y + 262400) % 4 == y % 4);
            assert((y + 262400) % 100 == y % 100);
            assert((y + 262400) % 400 == y % 400);
        }
        let days: u32 = if self.month == 2 {
            if leap {
                29
            } else {
                28
            }
        } else if self.month == 4 || self.month == 6 || self.month == 9 || self.month == 11 {
            30
        } else {
            31
        };
        1 <= self.day && self.day <= days
    }

    /// The day with the given year, month and day of the month, if there is
    /// such a day.
    pub fn new(year: i32, month: u32, day: u32) -> (r: Option<Date>)
        ensures
            r == if valid_date(year as int, month as int, day as int) {
                Some(Date { year, month, day })
            } else {
                None
            },
    {
        let date = Date { year, month, day };
        if date.is_valid() {
            Some(date)
        } else {
            None
        }
    }

    /// The day in the form `YYYY-MM-DD`, if it is a day of the calendar.
    pub fn iso(&self) -> (r: Option<String>)
        ensures
            self.valid() ==> r is Some && r.unwrap()@ == iso_date(
                self.year as int,
                self.month as int,
                self.day as int,
            ),
            !self.valid() ==> r is None,
    {
        if self.is_valid() {
            Some(display(self))
        } else {
            None
        }
    }

    /// The day written out in Italian, if it is a day of the calendar.
    pub fn italian(&self) -> (r: Option<String>)
        ensures
            self.valid() ==> r is Some && r.unwrap()@ == italian_date(
                self.year as int,
                self.month as int,
                self.day as int,
            ),
            !self.valid() ==> r is None,
    {
        if self.is_valid() {
            Some(display_italian(self))
        } else {
            None
        }
    }
}

/// `Display` of chrono's `NaiveDate`, for the day that `from_ymd_opt` makes
/// of the three numbers. chrono writes the year in four digits (outside 0 to
/// 9999 with a sign, padded to four digits), then the month and the day in
/// two digits each, with `-` between them. `from_ymd_opt` accepts every day
/// that exists in a year that chrono can hold.
#[verifier::external_body]
fn display(date: &Date) -> (r: String)
    requires
        date.valid(),
    ensures
        r@ == iso_date(date.year as int, date.month as int, date.day as int),
{
    NaiveDate::from_ymd_opt(date.year, date.month, date.day).expect("a day of the calendar")
        .to_string()
}

/// `NaiveDate::format_localized` of chrono, with the pattern for weekday,
/// day, month and year and the Italian locale, written out through
/// `Display`. The words come from the locale data that chrono is built with;
/// the result depends on the day alone.
#[verifier::external_body]
fn display_italian(date: &Date) -> (r: String)
    requires
        date.valid(),
    ensures
        r@ == italian_date(date.year as int, date.month as int, date.day as int),
{
    NaiveDate::from_ymd_opt(date.year, date.month, date.day).expect("a day of the calendar")
        .format_localized("%A %-d %B %Y", Locale::it_IT).to_string()
}

/// `NaiveDate::parse_from_str` of chrono. What it accepts is chrono's
/// matter; what it returns is a day of the calendar, given here by its year,
/// month and day of the month.
#[verifier::external_body]
fn parse(text: &str, pattern: &str) -> (r: Option<Date>)
    ensures
        r == parsed_date(text@, pattern@),
        r matches Some(date) ==> date.valid(),
{
    match NaiveDate::parse_from_str(text, pattern) {
        Ok(d) => Some(Date { year: d.year(), month: d.month(), day: d.day() }),
        Err(_) => None,
    }
}

/// The day that a command is about: the one typed, read under
/// `DAY_PATTERN`, or today where none was typed.
pub open spec fn requested(typed: Option<Seq<char>>, today: Date) -> Option<Date> {
    match typed {
        Some(text) => parsed_date(text, DAY_PATTERN@),
        None => Some(today),
    }
}

/// Chooses the day that a command is about. There is none where a day was
/// typed that cannot be read.
pub fn requested_day(typed: Option<&str>, today: Date) -> (r: Option<Date>)
    ensures
        r == requested(
            match typed {
                Some(text) => Some(text@),
                None => None,
            },
            today,
        ),
        typed is Some && r is Some ==> r.unwrap().valid(),
{
    match typed {
        Some(text) => parse(text, DAY_PATTERN),
        None => Some(today),
    }
}

} // verus!
