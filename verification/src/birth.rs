//! Birth dates: calendar dates written as `YYYY-MM-DD`.

use vstd::prelude::*;
use crate::validation::ValidationError;

verus! {

/// A calendar date as three numbers.
pub ghost struct DateView {
    pub year: int,
    pub month: int,
    pub day: int,
}

/// Whether `c` is one of the digits `0` to `9`.
pub open spec fn is_digit(c: char) -> bool {
    '0' <= c && c <= '9'
}

/// The number that the digit `c` stands for.
pub open spec fn digit_value(c: char) -> int {
    c as int - 48
}

/// The number that two digits stand for.
pub open spec fn two_digits(a: char, b: char) -> int {
    10 * digit_value(a) + digit_value(b)
}

/// Whether `y` is a leap year of the Gregorian calendar.
pub open spec fn is_leap_year(y: int) -> bool {
    y % 4 == 0 && (y % 100 != 0 || y % 400 == 0)
}

/// The number of days of month `m` in year `y`, for `m` from 1 to 12.
pub open spec fn days_in_month(y: int, m: int) -> int {
    if m == 2 {
        if is_leap_year(y) {
            29
        } else {
            28
        }
    } else if m == 4 || m == 6 || m == 9 || m == 11 {
        30
    } else {
        31
    }
}

/// Whether day `d` of month `m` exists in year `y`.
pub open spec fn is_calendar_date(y: int, m: int, d: int) -> bool {
    1 <= m <= 12 && 1 <= d <= days_in_month(y, m)
}

/// Whether `s` has the shape `YYYY-MM-DD`: ten characters, digits but for
/// the two hyphens.
pub open spec fn has_date_shape(s: Seq<char>) -> bool {
    &&& s.len() == 10
    &&& is_digit(s[0])
    &&& is_digit(s[1])
    &&& is_digit(s[2])
    &&& is_digit(s[3])
    &&& s[4] == '-'
    &&& is_digit(s[5])
    &&& is_digit(s[6])
    &&& s[7] == '-'
    &&& is_digit(s[8])
    &&& is_digit(s[9])
}

/// The three numbers written in a text of the shape `YYYY-MM-DD`.
pub open spec fn date_in(s: Seq<char>) -> DateView {
    DateView {
        year: 100 * two_digits(s[0], s[1]) + two_digits(s[2], s[3]),
        month: two_digits(s[5], s[6]),
        day: two_digits(s[8], s[9]),
    }
}

/// Whether `s` is a birth date: of the shape `YYYY-MM-DD`, and naming a day
/// that exists.
pub open spec fn is_birth_date_text(s: Seq<char>) -> bool {
    has_date_shape(s) && is_calendar_date(date_in(s).year, date_in(s).month, date_in(s).day)
}

/// A day of the Gregorian calendar in the years 0 to 9999.
#[derive(Clone, Copy, Debug)]
pub struct BirthDate {
    year: i32,
    month: u8,
    day: u8,
}

impl View for BirthDate {
    type V = DateView;

    closed spec fn view(&self) -> DateView {
        DateView { year: self.year as int, month: self.month as int, day: self.day as int }
    }
}

/// Asks `time::Date::from_calendar_date` whether a day exists, the month
/// number going through `time::Month::try_from`. A month outside 1 to 12 is
/// refused by the latter; the former accepts a day from 1 up to the length of
/// the month, February having 29 days in leap years. Years outside 0 to 9999
/// are not asked about.
#[verifier::external_body]
fn calendar_date_exists(year: i32, month: u8, day: u8) -> (ok: bool)
    requires
        0 <= year <= 9999,
    ensures
        ok == is_calendar_date(year as int, month as int, day as int),
{
    match time::Month::try_from(month) {
        Ok(m) => time::Date::from_calendar_date(year, m, day).is_ok(),
        Err(_) => false,
    }
}

/// The value of `c` if it is a digit.
fn digit_of(c: char) -> (r: Option<u8>)
    ensures
        match r {
            Some(v) => is_digit(c) && v as int == digit_value(c),
            None => !is_digit(c),
        },
{
    if c >= '0' && c <= '9' {
        let code: u32 = c as u32;
        Some((code - 48) as u8)
    } else {
        None
    }
}

/// The value of the two characters of `text` from `at` on, if both are
/// digits.
fn two_digits_at(text: &str, at: usize) -> (r: Option<u8>)
    requires
        text@.len() == 10,
        at <= 8,
    ensures
        match r {
            Some(v) => is_digit(text@[at as int]) && is_digit(text@[at + 1]) && v as int
                == two_digits(text@[at as int], text@[at + 1]),
            None => !(is_digit(text@[at as int]) && is_digit(text@[at + 1])),
        },
{
    match (digit_of(text.get_char(at)), digit_of(text.get_char(at + 1))) {
        (Some(a), Some(b)) => Some(10 * a + b),
        _ => None,
    }
}

impl BirthDate {
    #[verifier::type_invariant]
    spec fn exists_in_calendar(self) -> bool {
        0 <= self.year <= 9999 && is_calendar_date(
            self.year as int,
            self.month as int,
            self.day as int,
        )
    }

    /// The date of the given year, month and day, if there is such a day in
    /// the years 0 to 9999.
    pub fn new(year: i32, month: u8, day: u8) -> (r: Option<BirthDate>)
        ensures
            match r {
                Some(date) => date@ == (DateView {
                    year: year as int,
                    month: month as int,
                    day: day as int,
                }),
                None => true,
            },
            r is Some <==> 0 <= year <= 9999 && is_calendar_date(
                year as int,
                month as int,
                day as int,
            ),
    {
        if 0 <= year && year <= 9999 && calendar_date_exists(year, month, day) {
            Some(BirthDate { year, month, day })
        } else {
            None
        }
    }

    /// Reads a date written as `YYYY-MM-DD`. Anything else, and a day that
    /// no calendar has, is `InvalidBirthDate`.
    pub fn parse(text: &str) -> (r: Result<BirthDate, ValidationError>)
        ensures
            match r {
                Ok(date) => is_birth_date_text(text@) && date@ == date_in(text@),
                Err(e) => !is_birth_date_text(text@) && e == ValidationError::InvalidBirthDate,
            },
    {
        if text.unicode_len() != 10 {
            return Err(ValidationError::InvalidBirthDate);
        }
        if text.get_char(4) != '-' || text.get_char(7) != '-' {
            return Err(ValidationError::InvalidBirthDate);
        }
        let parts = (
            two_digits_at(text, 0),
            two_digits_at(text, 2),
            two_digits_at(text, 5),
            two_digits_at(text, 8),
        );
        match parts {
            (Some(century), Some(years), Some(month), Some(day)) => {
                let year: i32 = 100 * (century as i32) + (years as i32);
                match BirthDate::new(year, month, day) {
                    Some(date) => Ok(date),
                    None => Err(ValidationError::InvalidBirthDate),
                }
            },
            _ => Err(ValidationError::InvalidBirthDate),
        }
    }

    /// The year, from 0 to 9999.
    pub fn year(&self) -> (y: i32)
        ensures
            y as int == self@.year,
            0 <= y <= 9999,
    {
        proof {
            use_type_invariant(self);
        }
        self.year
    }

    /// The month, from 1 to 12.
    pub fn month(&self) -> (m: u8)
        ensures
            m as int == self@.month,
            1 <= m <= 12,
    {
        proof {
            use_type_invariant(self);
        }
        self.month
    }

    /// The day of the month, which exists in that month of that year.
    pub fn day(&self) -> (d: u8)
        ensures
            d as int == self@.day,
            1 <= d <= days_in_month(self@.year, self@.month),
    {
        proof {
            use_type_invariant(self);
        }
        self.day
    }
}

} // verus!
