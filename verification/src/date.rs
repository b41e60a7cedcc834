//! Calendar dates of the proleptic Gregorian calendar and the month
//! arithmetic that the reports rest on.

use chrono::Datelike;
use chrono::NaiveDate;
use chrono::Utc;
use vstd::prelude::*;
use vstd::string::StringExecFns;

verus! {

/// The first year a date can lie in.
pub const MIN_YEAR: i32 = -262143;

/// The last year a date can lie in.
pub const MAX_YEAR: i32 = 262142;

/// The last second, counted from the Unix epoch, that the clock can show:
/// the end of the last day of the last year.
pub const MAX_TIMESTAMP: i64 = 8_210_266_876_799;

/// `seconds` is a time that the clock can show: not before the Unix epoch
/// and not after the last second of the calendar.
pub open spec fn is_clock_reading(seconds: i64) -> bool {
    0 <= seconds <= MAX_TIMESTAMP
}

/// Whether `year` is a leap year.
pub open spec fn is_leap_year(year: int) -> bool {
    year % 4 == 0 && (year % 100 != 0 || year % 400 == 0)
}

/// The number of days of `month` in `year`, for a month from 1 to 12.
pub open spec fn days_in_month(year: int, month: int) -> int {
    if month == 2 {
        if is_leap_year(year) {
            29
        } else {
            28
        }
    } else if month == 4 || month == 6 || month == 9 || month == 11 {
        30
    } else {
        31
    }
}

/// Whether year, month and day name a day of the calendar within the
/// supported years.
pub open spec fn is_valid_ymd(year: int, month: int, day: int) -> bool {
    &&& MIN_YEAR <= year <= MAX_YEAR
    &&& 1 <= month <= 12
    &&& 1 <= day <= days_in_month(year, month)
}

/// A calendar date.
#[derive(Clone, Copy, Debug, PartialEq, Eq, Structural)]
pub struct Date {
    pub year: i32,
    pub month: u32,
    pub day: u32,
}

/// What `NaiveDate::parse_from_str` makes of `text` under the format
/// `%Y-%m-%d`: year, month and day, or `None` where it reports an error.
pub uninterp spec fn parsed_ymd(text: Seq<char>) -> Option<(int, int, int)>;

/// The date that a `YYYY-MM-DD` text stands for, if it stands for one.
pub open spec fn spec_parse_date(text: Seq<char>) -> Option<Date> {
    match parsed_ymd(text) {
        Some((y, m, d)) => Some(Date { year: y as i32, month: m as u32, day: d as u32 }),
        None => None,
    }
}

/// The first day of the month that a `YYYY-MM` text stands for.
pub open spec fn spec_parse_month(text: Seq<char>) -> Option<Date> {
    spec_parse_date(text + "-01"@)
}

impl Date {
    /// This date exists in the calendar.
    pub open spec fn is_valid(&self) -> bool {
        is_valid_ymd(self.year as int, self.month as int, self.day as int)
    }

    /// This date is `other` or an earlier day.
    pub open spec fn spec_le(&self, other: &Date) -> bool {
        ||| self.year < other.year
        ||| self.year == other.year && self.month < other.month
        ||| self.year == other.year && self.month == other.month && self.day <= other.day
    }

    /// This date lies in the closed range from `from` to `to`.
    pub open spec fn spec_between(&self, from: &Date, to: &Date) -> bool {
        from.spec_le(self) && self.spec_le(to)
    }

    /// The first day of this date's month.
    pub open spec fn spec_first_of_month(&self) -> Date {
        Date { year: self.year, month: self.month, day: 1 }
    }

    /// The last day of this date's month.
    pub open spec fn spec_last_day_of_month(&self) -> Date {
        Date {
            year: self.year,
            month: self.month,
            day: days_in_month(self.year as int, self.month as int) as u32,
        }
    }

    /// The day before this one.
    pub open spec fn spec_previous_day(&self) -> Date {
        if self.day > 1 {
            Date { year: self.year, month: self.month, day: (self.day - 1) as u32 }
        } else if self.month > 1 {
            Date {
                year: self.year,
                month: (self.month - 1) as u32,
                day: days_in_month(self.year as int, self.month - 1) as u32,
            }
        } else {
            Date { year: (self.year - 1) as i32, month: 12, day: 31 }
        }
    }

    /// This date is the first one that can be represented.
    pub open spec fn is_first_date(&self) -> bool {
        self.year == MIN_YEAR && self.month == 1 && self.day == 1
    }

    /// The date of year, month and day, or `None` where the calendar has no
    /// such day.
    pub fn from_ymd_opt(year: i32, month: u32, day: u32) -> (r: Option<Date>)
        ensures
            is_valid_ymd(year as int, month as int, day as int) ==> r == Some(
                Date { year, month, day },
            ),
            !is_valid_ymd(year as int, month as int, day as int) ==> r is None,
    {
        naive_from_ymd(year, month, day)
    }

    /// Whether this date exists in the calendar.
    pub fn check_valid(&self) -> (r: bool)
        ensures
            r == self.is_valid(),
    {
        naive_from_ymd(self.year, self.month, self.day).is_some()
    }

    /// Whether this date is `other` or an earlier day.
    pub fn le(&self, other: &Date) -> (r: bool)
        ensures
            r == self.spec_le(other),
    {
        self.year < other.year || (self.year == other.year && (self.month < other.month || (
        self.month == other.month && self.day <= other.day)))
    }

    /// Whether this date lies in the closed range from `from` to `to`.
    pub fn between(&self, from: &Date, to: &Date) -> (r: bool)
        ensures
            r == self.spec_between(from, to),
    {
        from.le(self) && self.le(to)
    }

    /// The first day of this date's month.
    pub fn first_of_month(&self) -> (r: Date)
        requires
            self.is_valid(),
        ensures
            r == self.spec_first_of_month(),
            r.is_valid(),
    {
        match naive_from_ymd(self.year, self.month, 1) {
            Some(first) => first,
            None => {
                assert(false);
                *self
            },
        }
    }

    /// The last day of this date's month: the day before the first day of
    /// the month that follows, across the turn of the year where the month
    /// is December.
    pub fn last_day_of_month(&self) -> (r: Date)
        requires
            self.is_valid(),
        ensures
            r == self.spec_last_day_of_month(),
            r.is_valid(),
            self.spec_le(&r),
    {
        let next_year: i32 = if self.month == 12 {
            self.year + 1
        } else {
            self.year
        };
        let next_month: u32 = if self.month == 12 {
            1
        } else {
            self.month + 1
        };
        match naive_from_ymd(next_year, next_month, 1) {
            Some(first_of_next) => match naive_previous_day(first_of_next) {
                Some(last) => last,
                None => {
                    assert(false);
                    *self
                },
            },
            // The month that follows lies beyond the last year: this is
            // December of that year.
            None => Date { year: self.year, month: 12, day: 31 },
        }
    }

    /// Reads a date written as `YYYY-MM-DD`, as chrono reads the format
    /// `%Y-%m-%d`.
    pub fn parse(text: &str) -> (r: Option<Date>)
        ensures
            r == spec_parse_date(text@),
            r matches Some(d) ==> d.is_valid(),
    {
        naive_parse_ymd(text)
    }

    /// Reads a month written as `YYYY-MM` and gives its first day: the date
    /// that the text followed by `-01` stands for.
    pub fn parse_month(text: &str) -> (r: Option<Date>)
        ensures
            r == spec_parse_month(text@),
            r matches Some(d) ==> d.is_valid(),
    {
        let full = String::from_str(text).concat("-01");
        naive_parse_ymd(full.as_str())
    }
}

/// Calls chrono's `NaiveDate::from_ymd_opt` and reads year, month and day
/// back from the date it made. Trusted: the call gives a date exactly where
/// the year is within chrono's range and the day exists in that month, and
/// the date it gives has the year, month and day it was made from.
#[verifier::external_body]
fn naive_from_ymd(year: i32, month: u32, day: u32) -> (r: Option<Date>)
    ensures
        is_valid_ymd(year as int, month as int, day as int) ==> r == Some(
            Date { year, month, day },
        ),
        !is_valid_ymd(year as int, month as int, day as int) ==> r is None,
{
    match NaiveDate::from_ymd_opt(year, month, day) {
        Some(d) => Some(Date { year: d.year(), month: d.month(), day: d.day() }),
        None => None,
    }
}

/// Calls chrono's `NaiveDate::pred_opt` on the date that `date` names.
/// Trusted: the call gives the previous calendar day, and nothing for the
/// first representable date.
#[verifier::external_body]
fn naive_previous_day(date: Date) -> (r: Option<Date>)
    requires
        date.is_valid(),
    ensures
        date.is_first_date() ==> r is None,
        !date.is_first_date() ==> r == Some(date.spec_previous_day()),
{
    match NaiveDate::from_ymd_opt(date.year, date.month, date.day)?.pred_opt() {
        Some(d) => Some(Date { year: d.year(), month: d.month(), day: d.day() }),
        None => None,
    }
}

/// Calls chrono's `NaiveDate::parse_from_str` with the format `%Y-%m-%d`.
/// Trusted: the outcome depends on the text alone, and a date that comes out
/// exists in the calendar.
#[verifier::external_body]
fn naive_parse_ymd(text: &str) -> (r: Option<Date>)
    ensures
        parsed_ymd(text@) == (match r {
            Some(d) => Some((d.year as int, d.month as int, d.day as int)),
            None => None,
        }),
        r matches Some(d) ==> d.is_valid(),
{
    match NaiveDate::parse_from_str(text, "%Y-%m-%d") {
        Ok(d) => Some(Date { year: d.year(), month: d.month(), day: d.day() }),
        Err(_) => None,
    }
}

/// Reads the clock through chrono's `Utc::now` and gives the current UTC
/// date together with the seconds since the Unix epoch. Trusted: the date
/// exists in the calendar, and the seconds are those of a time from the
/// epoch to the last second that chrono can represent. The call does not
/// return where the machine's clock shows a time outside that range.
#[verifier::external_body]
pub(crate) fn utc_now() -> (r: (Date, i64))
    ensures
        r.0.is_valid(),
        is_clock_reading(r.1),
{
    let now = Utc::now();
    let d = now.date_naive();
    (Date { year: d.year(), month: d.month(), day: d.day() }, now.timestamp())
}

} // verus!
