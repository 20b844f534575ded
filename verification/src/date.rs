//! Calendar dates and wall-clock timestamps as plain numbers.
//!
//! The calendar itself is chrono's: validity, parsing against a pattern,
//! printing against a pattern and the clock are calls into it. What the
//! codecs need of a date is its three numbers, which the types here hold.

use crate::number::{decimal, pad2};
use chrono::{Datelike, NaiveDate, NaiveDateTime, Timelike, Utc};
use vstd::prelude::*;

verus! {

/// The first year that a date can have.
pub const MIN_YEAR: i32 = -262143;

/// The last year that a date can have.
pub const MAX_YEAR: i32 = 262142;

/// Whether a year of the proleptic Gregorian calendar has 366 days.
pub open spec fn is_leap_year(year: int) -> bool {
    year % 4 == 0 && (year % 100 != 0 || year % 400 == 0)
}

/// The number of days of a month.
pub open spec fn days_in_month(year: int, month: int) -> int {
    if month == 2 {
        if is_leap_year(year) {
            29
        } else {
            28
        }
    } else if month == 4 || month == 6 || month == 9 || month == 11 {
        30
    } else {
        31
    }
}

/// Whether year, month and day name a day of the proleptic Gregorian
/// calendar within the supported years.
pub open spec fn valid_ymd(year: int, month: int, day: int) -> bool {
    &&& MIN_YEAR <= year <= MAX_YEAR
    &&& 1 <= month <= 12
    &&& 1 <= day <= days_in_month(year, month)
}

/// Whether the first date is not after the second.
pub open spec fn ymd_le(a: (int, int, int), b: (int, int, int)) -> bool {
    a.0 < b.0 || (a.0 == b.0 && (a.1 < b.1 || (a.1 == b.1 && a.2 <= b.2)))
}

/// A four-digit year as chrono prints it: zero-padded to four digits, and
/// with a sign before it when it lies outside 0 to 9999.
pub open spec fn year_text(year: int) -> Seq<char> {
    let magnitude = if year < 0 {
        -year
    } else {
        year
    };
    let digits = decimal(magnitude as nat);
    let padded = if digits.len() < 4 {
        Seq::new((4 - digits.len()) as nat, |i: int| '0') + digits
    } else {
        digits
    };
    if year < 0 {
        seq!['-'] + padded
    } else if year > 9999 {
        seq!['+'] + padded
    } else {
        padded
    }
}

/// The last two digits of the year, the month and the day: `YYMMDD`.
pub open spec fn yymmdd_text(d: (int, int, int)) -> Seq<char> {
    pad2((d.0 % 100) as nat) + pad2(d.1 as nat) + pad2(d.2 as nat)
}

/// Month and day: `MMDD`.
pub open spec fn mmdd_text(d: (int, int, int)) -> Seq<char> {
    pad2(d.1 as nat) + pad2(d.2 as nat)
}

/// Day, month and year with dots between them: `DD.MM.YYYY`.
pub open spec fn dotted_text(d: (int, int, int)) -> Seq<char> {
    pad2(d.2 as nat) + seq!['.'] + pad2(d.1 as nat) + seq!['.'] + year_text(d.0)
}

/// Year, month and day with hyphens between them: `YYYY-MM-DD`.
pub open spec fn iso_text(d: (int, int, int)) -> Seq<char> {
    year_text(d.0) + seq!['-'] + pad2(d.1 as nat) + seq!['-'] + pad2(d.2 as nat)
}

/// Hour, minute and second with colons between them: `hh:mm:ss`.
pub open spec fn clock_text(t: (int, int, int)) -> Seq<char> {
    pad2(t.0 as nat) + seq![':'] + pad2(t.1 as nat) + seq![':'] + pad2(t.2 as nat)
}

/// Date and time without separators: `YYYYMMDDhhmmss`.
pub open spec fn compact_text(d: (int, int, int), t: (int, int, int)) -> Seq<char> {
    year_text(d.0) + pad2(d.1 as nat) + pad2(d.2 as nat) + pad2(t.0 as nat) + pad2(t.1 as nat)
        + pad2(t.2 as nat)
}

/// What chrono reads out of `text` as a date under `pattern`: year, month
/// and day, or nothing where the text does not match.
pub uninterp spec fn chrono_date(text: Seq<char>, pattern: Seq<char>) -> Option<(int, int, int)>;

/// What chrono reads out of `text` as a date and time under `pattern`:
/// the date, then hour, minute and second.
pub uninterp spec fn chrono_date_time(text: Seq<char>, pattern: Seq<char>) -> Option<
    ((int, int, int), (int, int, int)),
>;

/// A day of the proleptic Gregorian calendar.
#[derive(Clone, Copy, Debug, PartialEq, Eq, PartialOrd, Ord, Hash)]
pub struct Date {
    year: i32,
    month: u32,
    day: u32,
}

impl View for Date {
    type V = (int, int, int);

    /// Year, month and day.
    closed spec fn view(&self) -> (int, int, int) {
        (self.year as int, self.month as int, self.day as int)
    }
}

impl Date {
    /// Every date is a day of the calendar.
    #[verifier::type_invariant]
    pub closed spec fn wf(self) -> bool {
        valid_ymd(self.year as int, self.month as int, self.day as int)
    }

    /// The date with the given numbers, if there is such a day.
    pub fn from_ymd_opt(year: i32, month: u32, day: u32) -> (r: Option<Date>)
        ensures
            r is Some == valid_ymd(year as int, month as int, day as int),
            r matches Some(d) ==> d@ == (year as int, month as int, day as int),
    {
        if is_calendar_day(year, month, day) {
            Some(Date { year, month, day })
        } else {
            None
        }
    }

    /// The year.
    pub fn year(&self) -> (y: i32)
        ensures
            y == self@.0,
            valid_ymd(self@.0, self@.1, self@.2),
    {
        proof {
            use_type_invariant(self);
        }
        self.year
    }

    /// The month, from 1 to 12.
    pub fn month(&self) -> (m: u32)
        ensures
            m == self@.1,
            valid_ymd(self@.0, self@.1, self@.2),
    {
        proof {
            use_type_invariant(self);
        }
        self.month
    }

    /// The day of the month, from 1.
    pub fn day(&self) -> (d: u32)
        ensures
            d == self@.2,
            valid_ymd(self@.0, self@.1, self@.2),
    {
        proof {
            use_type_invariant(self);
        }
        self.day
    }

    /// Whether this date is not after `other`.
    pub fn le(&self, other: &Date) -> (r: bool)
        ensures
            r == ymd_le(self@, other@),
    {
        self.year < other.year || (self.year == other.year && (self.month < other.month || (
        self.month == other.month && self.day <= other.day)))
    }

    /// Whether the two dates are the same day.
    pub fn same(&self, other: &Date) -> (r: bool)
        ensures
            r == (self@ == other@),
            r == (*self == *other),
    {
        self.year == other.year && self.month == other.month && self.day == other.day
    }

    /// The earlier of two dates.
    pub fn min(self, other: Date) -> (r: Date)
        ensures
            r == (if ymd_le(self@, other@) {
                self
            } else {
                other
            }),
    {
        if self.le(&other) {
            self
        } else {
            other
        }
    }

    /// The later of two dates.
    pub fn max(self, other: Date) -> (r: Date)
        ensures
            r == (if ymd_le(self@, other@) {
                other
            } else {
                self
            }),
    {
        if self.le(&other) {
            other
        } else {
            self
        }
    }

    /// The date as `YYMMDD`.
    pub fn format_yymmdd(self) -> (r: String)
        ensures
            r@ == yymmdd_text(self@),
    {
        format_date(self, "%y%m%d")
    }

    /// The date as `MMDD`.
    pub fn format_mmdd(self) -> (r: String)
        ensures
            r@ == mmdd_text(self@),
    {
        format_date(self, "%m%d")
    }

    /// The date as `DD.MM.YYYY`.
    pub fn format_dotted(self) -> (r: String)
        ensures
            r@ == dotted_text(self@),
    {
        format_date(self, "%d.%m.%Y")
    }

    /// The date as `YYYY-MM-DD`.
    pub fn format_iso(self) -> (r: String)
        ensures
            r@ == iso_text(self@),
    {
        format_date(self, "%Y-%m-%d")
    }

    /// Reads a date under a chrono pattern. Where the text does not match,
    /// the error holds chrono's words for it.
    pub fn parse_from_str(text: &str, pattern: &str) -> (r: Result<Date, String>)
        ensures
            match r {
                Ok(d) => chrono_date(text@, pattern@) == Some(d@),
                Err(_) => chrono_date(text@, pattern@) is None,
            },
    {
        parse_date(text, pattern)
    }
}

/// A date with a time of day, to the second.
#[derive(Clone, Copy, Debug, PartialEq, Eq, PartialOrd, Ord, Hash)]
pub struct Timestamp {
    date: Date,
    hour: u32,
    minute: u32,
    second: u32,
}

/// Whether hour, minute and second name a time of day.
pub open spec fn valid_hms(hour: int, minute: int, second: int) -> bool {
    0 <= hour < 24 && 0 <= minute < 60 && 0 <= second < 60
}

impl Timestamp {
    /// Every timestamp is a time of day on a day of the calendar.
    #[verifier::type_invariant]
    pub closed spec fn wf(self) -> bool {
        self.date.wf() && valid_hms(self.hour as int, self.minute as int, self.second as int)
    }

    /// The day.
    pub closed spec fn day(self) -> (int, int, int) {
        self.date@
    }

    /// Hour, minute and second.
    pub closed spec fn clock(self) -> (int, int, int) {
        (self.hour as int, self.minute as int, self.second as int)
    }

    /// The timestamp with the given date and time of day, if there is such a
    /// time.
    pub fn new(date: Date, hour: u32, minute: u32, second: u32) -> (r: Option<Timestamp>)
        ensures
            r is Some == valid_hms(hour as int, minute as int, second as int),
            r matches Some(t) ==> t.day() == date@ && t.clock() == (
                hour as int,
                minute as int,
                second as int,
            ),
    {
        proof {
            use_type_invariant(date);
        }
        if hour < 24 && minute < 60 && second < 60 {
            Some(Timestamp { date, hour, minute, second })
        } else {
            None
        }
    }

    /// The current time in UTC: whatever the clock reads, it is a time of
    /// day on a day of the calendar.
    pub fn now() -> (t: Timestamp)
        ensures
            valid_ymd(t.day().0, t.day().1, t.day().2),
            valid_hms(t.clock().0, t.clock().1, t.clock().2),
    {
        let t = utc_now();
        proof {
            use_type_invariant(&t);
            use_type_invariant(&t.date);
        }
        t
    }

    /// The day.
    pub fn date(&self) -> (d: Date)
        ensures
            d@ == self.day(),
    {
        self.date
    }

    /// The day as `DD.MM.YYYY`.
    pub fn format_dotted(self) -> (r: String)
        ensures
            r@ == dotted_text(self.day()),
    {
        format_timestamp(self, "%d.%m.%Y")
    }

    /// The time of day as `hh:mm:ss`.
    pub fn format_clock(self) -> (r: String)
        ensures
            r@ == clock_text(self.clock()),
    {
        format_timestamp(self, "%H:%M:%S")
    }

    /// Date and time as `YYYYMMDDhhmmss`.
    pub fn format_compact(self) -> (r: String)
        ensures
            r@ == compact_text(self.day(), self.clock()),
    {
        format_timestamp(self, "%Y%m%d%H%M%S")
    }

    /// Date and time as `YYYY-MM-DDThh:mm:ss`.
    pub fn format_iso(self) -> (r: String)
        ensures
            r@ == iso_text(self.day()) + seq!['T'] + clock_text(self.clock()),
    {
        format_timestamp(self, "%Y-%m-%dT%H:%M:%S")
    }

    /// Reads a date and time under a chrono pattern. Where the text does not
    /// match, the error holds chrono's words for it.
    pub fn parse_from_str(text: &str, pattern: &str) -> (r: Result<Timestamp, String>)
        ensures
            match r {
                Ok(t) => chrono_date_time(text@, pattern@) == Some((t.day(), t.clock())),
                Err(_) => chrono_date_time(text@, pattern@) is None,
            },
    {
        parse_date_time(text, pattern)
    }
}

/// `NaiveDate::from_ymd_opt` accepts exactly the days of the proleptic
/// Gregorian calendar between chrono's first and last year.
#[verifier::external_body]
fn is_calendar_day(year: i32, month: u32, day: u32) -> (r: bool)
    ensures
        r == valid_ymd(year as int, month as int, day as int),
{
    NaiveDate::from_ymd_opt(year, month, day).is_some()
}

/// `NaiveDate::format` with one of the four date patterns in use: `%y` is
/// the year modulo 100, `%m` and `%d` are month and day, each as two digits;
/// `%Y` is the year as `year_text` writes it; every other character of the
/// pattern is printed as it stands.
#[verifier::external_body]
fn format_date(date: Date, pattern: &str) -> (r: String)
    requires
        pattern@ == "%y%m%d"@ || pattern@ == "%m%d"@ || pattern@ == "%d.%m.%Y"@ || pattern@
            == "%Y-%m-%d"@,
    ensures
        pattern@ == "%y%m%d"@ ==> r@ == yymmdd_text(date@),
        pattern@ == "%m%d"@ ==> r@ == mmdd_text(date@),
        pattern@ == "%d.%m.%Y"@ ==> r@ == dotted_text(date@),
        pattern@ == "%Y-%m-%d"@ ==> r@ == iso_text(date@),
{
    NaiveDate::from_ymd_opt(date.year, date.month, date.day).map(
        |d| d.format(pattern).to_string(),
    ).unwrap_or_default()
}

/// `NaiveDateTime::format` with one of the four patterns in use: the date
/// fields as in `format_date`, and `%H`, `%M`, `%S` as hour, minute and
/// second, each as two digits.
#[verifier::external_body]
fn format_timestamp(t: Timestamp, pattern: &str) -> (r: String)
    requires
        pattern@ == "%d.%m.%Y"@ || pattern@ == "%H:%M:%S"@ || pattern@ == "%Y%m%d%H%M%S"@
            || pattern@ == "%Y-%m-%dT%H:%M:%S"@,
    ensures
        pattern@ == "%d.%m.%Y"@ ==> r@ == dotted_text(t.day()),
        pattern@ == "%H:%M:%S"@ ==> r@ == clock_text(t.clock()),
        pattern@ == "%Y%m%d%H%M%S"@ ==> r@ == compact_text(t.day(), t.clock()),
        pattern@ == "%Y-%m-%dT%H:%M:%S"@ ==> r@ == iso_text(t.day()) + seq!['T'] + clock_text(
            t.clock(),
        ),
{
    NaiveDate::from_ymd_opt(t.date.year, t.date.month, t.date.day).and_then(
        |d| d.and_hms_opt(t.hour, t.minute, t.second),
    ).map(|dt| dt.format(pattern).to_string()).unwrap_or_default()
}

/// `NaiveDate::parse_from_str`: the date that chrono reads, as its three
/// numbers, or else the words of chrono's error. chrono hands out only days
/// of its calendar.
#[verifier::external_body]
fn parse_date(text: &str, pattern: &str) -> (r: Result<Date, String>)
    ensures
        match r {
            Ok(d) => chrono_date(text@, pattern@) == Some(d@),
            Err(_) => chrono_date(text@, pattern@) is None,
        },
{
    NaiveDate::parse_from_str(text, pattern).map(
        |d| Date { year: d.year(), month: d.month(), day: d.day() },
    ).map_err(|e| e.to_string())
}

/// `NaiveDateTime::parse_from_str`: the date and time that chrono reads, as
/// numbers, or else the words of chrono's error. chrono hands out only days
/// of its calendar and times of day whose second is below 60.
#[verifier::external_body]
fn parse_date_time(text: &str, pattern: &str) -> (r: Result<Timestamp, String>)
    ensures
        match r {
            Ok(t) => chrono_date_time(text@, pattern@) == Some((t.day(), t.clock())),
            Err(_) => chrono_date_time(text@, pattern@) is None,
        },
{
    NaiveDateTime::parse_from_str(text, pattern).map(
        |t| Timestamp {
            date: Date { year: t.year(), month: t.month(), day: t.day() },
            hour: t.hour(),
            minute: t.minute(),
            second: t.second(),
        },
    ).map_err(|e| e.to_string())
}

/// `Utc::now`: the clock's reading. Nothing is known of it but that it is
/// a day of chrono's calendar and a time of day.
#[verifier::external_body]
fn utc_now() -> Timestamp {
    let t = Utc::now().naive_utc();
    Timestamp {
        date: Date { year: t.year(), month: t.month(), day: t.day() },
        hour: t.hour(),
        minute: t.minute(),
        second: t.second(),
    }
}

} // verus!
