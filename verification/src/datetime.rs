//! Calendar date-times held as plain fields, in local time.
//!
//! Tasks carry their creation instant and the filter language compares
//! instants, so the library keeps a date-time as year, month, day, hour and
//! minute with a Gregorian validity invariant, orders values
//! lexicographically on those fields, and parses the fixed
//! `YYYY-MM-DD HH:MM` format. Only reading the clock itself needs an
//! outside crate.

use vstd::prelude::*;
use vstd::string::StrSliceExecFns;
use vstd::string::StringExecFns;

verus! {

/// A calendar date with a time of day, to minute precision.
#[derive(Clone, Copy, PartialEq, Eq, Structural, Debug)]
pub struct DateTime {
    pub year: i32,
    pub month: u8,
    pub day: u8,
    pub hour: u8,
    pub minute: u8,
}

/// Whether `y` is a Gregorian leap year.
pub open spec fn spec_is_leap_year(y: i32) -> bool {
    y as int % 4 == 0 && (y as int % 100 != 0 || y as int % 400 == 0)
}

/// Number of days in `month` of `year`; 0 for a month outside 1..=12.
pub open spec fn spec_days_in_month(year: i32, month: u8) -> u8 {
    if month == 1 || month == 3 || month == 5 || month == 7 || month == 8 || month == 10
        || month == 12 {
        31
    } else if month == 4 || month == 6 || month == 9 || month == 11 {
        30
    } else if month == 2 {
        if spec_is_leap_year(year) {
            29
        } else {
            28
        }
    } else {
        0
    }
}

/// A well-formed date-time: month, day, hour and minute in range, the day
/// existing in its month.
pub open spec fn dt_valid(d: DateTime) -> bool {
    &&& 1 <= d.month <= 12
    &&& 1 <= d.day <= spec_days_in_month(d.year, d.month)
    &&& d.hour < 24
    &&& d.minute < 60
}

/// Strict lexicographic order on (year, month, day, hour, minute).
pub open spec fn dt_lt(a: DateTime, b: DateTime) -> bool {
    if a.year != b.year {
        a.year < b.year
    } else if a.month != b.month {
        a.month < b.month
    } else if a.day != b.day {
        a.day < b.day
    } else if a.hour != b.hour {
        a.hour < b.hour
    } else {
        a.minute < b.minute
    }
}

pub fn is_leap_year(y: i32) -> (r: bool)
    ensures
        r == spec_is_leap_year(y),
{
    y % 4 == 0 && (y % 100 != 0 || y % 400 == 0)
}

pub fn days_in_month(year: i32, month: u8) -> (r: u8)
    ensures
        r == spec_days_in_month(year, month),
{
    if month == 1 || month == 3 || month == 5 || month == 7 || month == 8 || month == 10
        || month == 12 {
        31
    } else if month == 4 || month == 6 || month == 9 || month == 11 {
        30
    } else if month == 2 {
        if is_leap_year(year) {
            29
        } else {
            28
        }
    } else {
        0
    }
}

impl DateTime {
    /// Whether `self` is strictly earlier than `other`.
    pub fn is_before(&self, other: &DateTime) -> (r: bool)
        ensures
            r == dt_lt(*self, *other),
    {
        if self.year != other.year {
            self.year < other.year
        } else if self.month != other.month {
            self.month < other.month
        } else if self.day != other.day {
            self.day < other.day
        } else if self.hour != other.hour {
            self.hour < other.hour
        } else {
            self.minute < other.minute
        }
    }

    /// Whether `self` is strictly later than `other`.
    pub fn is_after(&self, other: &DateTime) -> (r: bool)
        ensures
            r == dt_lt(*other, *self),
    {
        other.is_before(self)
    }
}

/// An ASCII decimal digit.
pub open spec fn spec_is_digit(c: char) -> bool {
    48 <= c as u32 <= 57
}

/// The value of an ASCII decimal digit.
pub open spec fn digit_val(c: char) -> int {
    c as u32 - 48
}

/// The characters of `s` lie in the shape `YYYY-MM-DD HH:MM`.
pub open spec fn spec_datetime_shape(s: Seq<char>) -> bool {
    &&& s.len() == 16
    &&& spec_is_digit(s[0]) && spec_is_digit(s[1]) && spec_is_digit(s[2]) && spec_is_digit(s[3])
    &&& s[4] == '-'
    &&& spec_is_digit(s[5]) && spec_is_digit(s[6])
    &&& s[7] == '-'
    &&& spec_is_digit(s[8]) && spec_is_digit(s[9])
    &&& s[10] == ' '
    &&& spec_is_digit(s[11]) && spec_is_digit(s[12])
    &&& s[13] == ':'
    &&& spec_is_digit(s[14]) && spec_is_digit(s[15])
}

/// The fields spelled by a sequence of shape `YYYY-MM-DD HH:MM`.
pub open spec fn spec_datetime_fields(s: Seq<char>) -> DateTime {
    DateTime {
        year: (digit_val(s[0]) * 1000 + digit_val(s[1]) * 100 + digit_val(s[2]) * 10 + digit_val(
            s[3],
        )) as i32,
        month: (digit_val(s[5]) * 10 + digit_val(s[6])) as u8,
        day: (digit_val(s[8]) * 10 + digit_val(s[9])) as u8,
        hour: (digit_val(s[11]) * 10 + digit_val(s[12])) as u8,
        minute: (digit_val(s[14]) * 10 + digit_val(s[15])) as u8,
    }
}

/// The date-time that `s` spells: it must have the fixed shape
/// `YYYY-MM-DD HH:MM` and name a well-formed date.
pub open spec fn spec_parse_datetime(s: Seq<char>) -> Option<DateTime> {
    if spec_datetime_shape(s) && dt_valid(spec_datetime_fields(s)) {
        Some(spec_datetime_fields(s))
    } else {
        None
    }
}

fn is_digit(c: char) -> (r: bool)
    ensures
        r == spec_is_digit(c),
{
    let u = c as u32;
    48 <= u && u <= 57
}

fn digit(c: char) -> (r: u8)
    requires
        spec_is_digit(c),
    ensures
        r == digit_val(c),
{
    (c as u32 - 48) as u8
}

/// Parses the fixed `YYYY-MM-DD HH:MM` format; errors exactly on strings of
/// another shape and on field values that name no real date.
pub fn parse_datetime(s: &str) -> (r: Result<DateTime, String>)
    ensures
        r is Ok <==> spec_parse_datetime(s@) is Some,
        r is Ok ==> r->Ok_0 == spec_parse_datetime(s@)->0,
{
    if s.unicode_len() != 16 {
        return Err(String::from_str("Invalid date format"));
    }
    if s.get_char(4) != '-' || s.get_char(7) != '-' || s.get_char(10) != ' ' || s.get_char(13)
        != ':' {
        return Err(String::from_str("Invalid date format"));
    }
    if !(is_digit(s.get_char(0)) && is_digit(s.get_char(1)) && is_digit(s.get_char(2)) && is_digit(
        s.get_char(3),
    ) && is_digit(s.get_char(5)) && is_digit(s.get_char(6)) && is_digit(s.get_char(8)) && is_digit(
        s.get_char(9),
    ) && is_digit(s.get_char(11)) && is_digit(s.get_char(12)) && is_digit(s.get_char(14))
        && is_digit(s.get_char(15))) {
        return Err(String::from_str("Invalid date format"));
    }
    let year: u32 = digit(s.get_char(0)) as u32 * 1000 + digit(s.get_char(1)) as u32 * 100 + digit(
        s.get_char(2),
    ) as u32 * 10 + digit(s.get_char(3)) as u32;
    let month: u8 = digit(s.get_char(5)) * 10 + digit(s.get_char(6));
    let day: u8 = digit(s.get_char(8)) * 10 + digit(s.get_char(9));
    let hour: u8 = digit(s.get_char(11)) * 10 + digit(s.get_char(12));
    let minute: u8 = digit(s.get_char(14)) * 10 + digit(s.get_char(15));
    let d = DateTime { year: year as i32, month, day, hour, minute };
    if 1 <= month && month <= 12 && 1 <= day && day <= days_in_month(d.year, month) && hour < 24
        && minute < 60 {
        Ok(d)
    } else {
        Err(String::from_str("Invalid date"))
    }
}

/// Relies on chrono: `Local::now` read through the `Datelike` and
/// `Timelike` accessors, whose documentation bounds month in 1..=12,
/// day in 1..=31, hour in 0..=23 and minute in 0..=59.
#[verifier::external_body]
fn local_clock_fields() -> (r: (i32, u8, u8, u8, u8))
    ensures
        1 <= r.1 <= 12,
        1 <= r.2 <= 31,
        r.3 < 24,
        r.4 < 60,
{
    let t = chrono::Local::now();
    (
        chrono::Datelike::year(&t),
        chrono::Datelike::month(&t) as u8,
        chrono::Datelike::day(&t) as u8,
        chrono::Timelike::hour(&t) as u8,
        chrono::Timelike::minute(&t) as u8,
    )
}

/// The current local date-time. Whatever the clock reports, the result is a
/// well-formed date-time; a day the month cannot hold falls back to the 1st.
pub fn now() -> (r: DateTime)
    ensures
        dt_valid(r),
{
    let (year, month, day, hour, minute) = local_clock_fields();
    let day = if day <= days_in_month(year, month) {
        day
    } else {
        1
    };
    DateTime { year, month, day, hour, minute }
}

} // verus!
