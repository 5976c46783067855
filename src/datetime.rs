//! Dates and times of day as plain fields, read and written through chrono.

use vstd::prelude::*;
use crate::text::text_eq;
use chrono::{Datelike, Timelike};

verus! {

/// The years chrono can represent.
pub const MIN_YEAR: i32 = -262143;
pub const MAX_YEAR: i32 = 262142;

/// A calendar date.
#[derive(Clone, Copy, PartialEq, Eq, Structural, Debug)]
pub struct LocalDate {
    pub year: i32,
    pub month: u32,
    pub day: u32,
}

/// A date and a time of day, without a time zone. A nanosecond count of a
/// second or more stands for a leap second.
#[derive(Clone, Copy, PartialEq, Eq, Structural, Debug)]
pub struct LocalDateTime {
    pub date: LocalDate,
    pub hour: u32,
    pub minute: u32,
    pub second: u32,
    pub nanosecond: u32,
}

pub open spec fn is_leap_year(y: int) -> bool {
    y % 4 == 0 && (y % 100 != 0 || y % 400 == 0)
}

pub open spec fn days_in_month(y: int, m: int) -> int {
    if m == 2 {
        if is_leap_year(y) { 29 } else { 28 }
    } else if m == 4 || m == 6 || m == 9 || m == 11 {
        30
    } else {
        31
    }
}

impl LocalDate {
    /// A date that exists in the proleptic Gregorian calendar, in chrono's
    /// range of years.
    pub open spec fn valid(&self) -> bool {
        &&& MIN_YEAR <= self.year <= MAX_YEAR
        &&& 1 <= self.month <= 12
        &&& 1 <= self.day <= days_in_month(self.year as int, self.month as int)
    }
}

impl LocalDateTime {
    pub open spec fn valid(&self) -> bool {
        &&& self.date.valid()
        &&& self.hour < 24
        &&& self.minute < 60
        &&& self.second < 60
        &&& (self.nanosecond < 1_000_000_000 || (self.second == 59 && self.nanosecond < 2_000_000_000))
    }

    /// The fields in order of significance, which is the order of time.
    pub open spec fn key(&self) -> Seq<int> {
        seq![
            self.date.year as int,
            self.date.month as int,
            self.date.day as int,
            self.hour as int,
            self.minute as int,
            self.second as int,
            self.nanosecond as int,
        ]
    }
}

/// Whether `a` comes after `b`: the first field in which they differ is
/// larger in `a`.
pub open spec fn is_later(a: LocalDateTime, b: LocalDateTime) -> bool {
    exists|i: int| 0 <= i < 7 && a.key()[i] > b.key()[i]
        && forall|j: int| 0 <= j < i ==> a.key()[j] == b.key()[j]
}

/// What chrono's `NaiveDateTime::parse_from_str` makes of a text and format.
pub uninterp spec fn parsed_datetime(text: Seq<char>, format: Seq<char>) -> Option<LocalDateTime>;

/// What chrono's `NaiveDate::parse_from_str` makes of a text and format.
pub uninterp spec fn parsed_date(text: Seq<char>, format: Seq<char>) -> Option<LocalDate>;

/// The text chrono's `NaiveDateTime::format` writes for a date and time.
pub uninterp spec fn formatted_datetime(dt: LocalDateTime, format: Seq<char>) -> Seq<char>;

/// The text chrono's `NaiveDate::format` writes for a date.
pub uninterp spec fn formatted_date(d: LocalDate, format: Seq<char>) -> Seq<char>;

/// Relies on chrono's NaiveDateTime::parse_from_str: `None` where chrono
/// reports an error; a value chrono holds is always a valid date and time.
#[verifier::external_body]
pub fn parse_datetime(text: &str, format: &str) -> (r: Option<LocalDateTime>)
    ensures
        r == parsed_datetime(text@, format@),
        r matches Some(dt) ==> dt.valid(),
{
    chrono::NaiveDateTime::parse_from_str(text, format).ok().map(|dt| LocalDateTime {
        date: LocalDate { year: dt.year(), month: dt.month(), day: dt.day() },
        hour: dt.hour(),
        minute: dt.minute(),
        second: dt.second(),
        nanosecond: dt.nanosecond(),
    })
}

/// Relies on chrono's NaiveDate::parse_from_str: `None` where chrono reports
/// an error; a date chrono holds is always valid.
#[verifier::external_body]
pub fn parse_date(text: &str, format: &str) -> (r: Option<LocalDate>)
    ensures
        r == parsed_date(text@, format@),
        r matches Some(d) ==> d.valid(),
{
    chrono::NaiveDate::parse_from_str(text, format).ok().map(|d| LocalDate {
        year: d.year(),
        month: d.month(),
        day: d.day(),
    })
}

/// The patterns in which dates and times are written. chrono's writer fails
/// on a pattern it cannot read, so only these are used.
pub open spec fn datetime_pattern(format: Seq<char>) -> bool {
    format == "%d.%m.%Y"@ || format == "%m/%d/%Y"@ || format == "%H:%M"@ || format == "%I:%M %p"@
        || format == "%Y%m%dT%H%M%S"@ || format == "%Y%m%dT%H%M%SZ"@
}

/// The patterns in which dates alone are written.
pub open spec fn date_only_pattern(format: Seq<char>) -> bool {
    format == "%d.%m.%Y"@ || format == "%m/%d/%Y"@
}

/// Relies on chrono's NaiveDateTime::format, written out with `to_string`;
/// chrono builds the value from valid fields without failing, and writes
/// these patterns without error.
#[verifier::external_body]
pub fn format_datetime(dt: &LocalDateTime, format: &str) -> (r: String)
    requires
        dt.valid(),
        datetime_pattern(format@),
    ensures
        r@ == formatted_datetime(*dt, format@),
{
    let d = chrono::NaiveDate::from_ymd_opt(dt.date.year, dt.date.month, dt.date.day).unwrap();
    d.and_hms_nano_opt(dt.hour, dt.minute, dt.second, dt.nanosecond).unwrap().format(format).to_string()
}

/// Relies on chrono's NaiveDate::format, written out with `to_string`;
/// chrono builds the value from valid fields without failing, and writes
/// these patterns without error.
#[verifier::external_body]
pub fn format_date(d: &LocalDate, format: &str) -> (r: String)
    requires
        d.valid(),
        date_only_pattern(format@),
    ensures
        r@ == formatted_date(*d, format@),
{
    chrono::NaiveDate::from_ymd_opt(d.year, d.month, d.day).unwrap().format(format).to_string()
}

/// Whether `a` comes after `b`.
pub fn later_than(a: &LocalDateTime, b: &LocalDateTime) -> (r: bool)
    ensures
        r == is_later(*a, *b),
{
    let ka: [i64; 7] = [a.date.year as i64, a.date.month as i64, a.date.day as i64, a.hour as i64,
        a.minute as i64, a.second as i64, a.nanosecond as i64];
    let kb: [i64; 7] = [b.date.year as i64, b.date.month as i64, b.date.day as i64, b.hour as i64,
        b.minute as i64, b.second as i64, b.nanosecond as i64];
    let mut i: usize = 0;
    while i < 7
        invariant
            i <= 7,
            forall|k: int| 0 <= k < 7 ==> ka@[k] == a.key()[k] && kb@[k] == b.key()[k],
            forall|j: int| 0 <= j < i ==> a.key()[j] == b.key()[j],
        decreases 7 - i,
    {
        if ka[i] != kb[i] {
            proof {
                if ka[i as int] < kb[i as int] {
                    assert forall|k: int| 0 <= k < 7 && a.key()[k] > b.key()[k]
                        implies exists|j: int| 0 <= j < k && a.key()[j] != b.key()[j] by {
                        if k > i {
                            assert(a.key()[i as int] != b.key()[i as int]);
                        }
                    }
                }
            }
            return ka[i] > kb[i];
        }
        i = i + 1;
    }
    proof {
        assert forall|k: int| 0 <= k < 7 implies !(a.key()[k] > b.key()[k]) by {}
    }
    false
}

/// The last instant of a deadline given as a date alone.
pub open spec fn end_of_day(d: LocalDate) -> LocalDateTime {
    LocalDateTime { date: d, hour: 23, minute: 59, second: 59, nanosecond: 0 }
}

/// The deadline that a stored `respond_until` text names: a date and time
/// with or without seconds, or a date alone, which ends with its day.
pub open spec fn deadline_of(text: Seq<char>) -> Option<LocalDateTime> {
    if parsed_datetime(text, "%Y-%m-%dT%H:%M:%S"@) is Some {
        parsed_datetime(text, "%Y-%m-%dT%H:%M:%S"@)
    } else if parsed_datetime(text, "%Y-%m-%dT%H:%M"@) is Some {
        parsed_datetime(text, "%Y-%m-%dT%H:%M"@)
    } else {
        match parsed_date(text, "%Y-%m-%d"@) {
            Some(d) => Some(end_of_day(d)),
            None => None,
        }
    }
}

/// Reads a stored deadline (see `deadline_of`).
pub fn read_deadline(text: &str) -> (r: Option<LocalDateTime>)
    ensures
        r == deadline_of(text@),
{
    if let Some(dt) = parse_datetime(text, "%Y-%m-%dT%H:%M:%S") {
        return Some(dt);
    }
    if let Some(dt) = parse_datetime(text, "%Y-%m-%dT%H:%M") {
        return Some(dt);
    }
    match parse_date(text, "%Y-%m-%d") {
        Some(d) => Some(LocalDateTime { date: d, hour: 23, minute: 59, second: 59, nanosecond: 0 }),
        None => None,
    }
}

/// Whether the time to respond is over at `now`: there is a deadline that
/// can be read, and `now` comes after it. An empty or unreadable deadline
/// never passes.
pub open spec fn deadline_over(now: LocalDateTime, respond_until: Seq<char>) -> bool {
    respond_until.len() > 0 && match deadline_of(respond_until) {
        Some(d) => is_later(now, d),
        None => false,
    }
}

/// Whether the time to respond is over at `now` (see `deadline_over`).
pub fn deadline_passed(now: &LocalDateTime, respond_until: &str) -> (r: bool)
    ensures
        r == deadline_over(*now, respond_until@),
{
    if respond_until.unicode_len() == 0 {
        return false;
    }
    match read_deadline(respond_until) {
        Some(d) => later_than(now, &d),
        None => false,
    }
}

/// How a date is written for a language: day first in German, month first
/// otherwise.
pub open spec fn date_pattern(language: Seq<char>) -> Seq<char> {
    if language == "de"@ { "%d.%m.%Y"@ } else { "%m/%d/%Y"@ }
}

/// How a time of day is written for a language: 24 hours in German, 12 hours
/// with AM or PM otherwise.
pub open spec fn time_pattern(language: Seq<char>) -> Seq<char> {
    if language == "de"@ { "%H:%M"@ } else { "%I:%M %p"@ }
}

/// The date and the time of day that a stored party date shows in a
/// language: a date and time with or without seconds gives both, a date
/// alone gives the date and an empty time, and anything else two empty
/// texts.
pub open spec fn shown_date_time(text: Seq<char>, language: Seq<char>) -> (Seq<char>, Seq<char>) {
    if text.len() == 0 {
        (Seq::empty(), Seq::empty())
    } else if let Some(dt) = parsed_datetime(text, "%Y-%m-%dT%H:%M:%S"@) {
        (formatted_datetime(dt, date_pattern(language)), formatted_datetime(dt, time_pattern(language)))
    } else if let Some(dt) = parsed_datetime(text, "%Y-%m-%dT%H:%M"@) {
        (formatted_datetime(dt, date_pattern(language)), formatted_datetime(dt, time_pattern(language)))
    } else if let Some(d) = parsed_date(text, "%Y-%m-%d"@) {
        (formatted_date(d, date_pattern(language)), Seq::empty())
    } else {
        (Seq::empty(), Seq::empty())
    }
}

fn date_pattern_for(language: &str) -> (r: &'static str)
    ensures
        r@ == date_pattern(language@),
{
    if text_eq(language, "de") { "%d.%m.%Y" } else { "%m/%d/%Y" }
}

fn time_pattern_for(language: &str) -> (r: &'static str)
    ensures
        r@ == time_pattern(language@),
{
    if text_eq(language, "de") { "%H:%M" } else { "%I:%M %p" }
}

/// The date and the time of day of a stored party date, written for a
/// language (see `shown_date_time`).
pub fn format_date_time(date_str: &str, language: &str) -> (r: (String, String))
    ensures
        (r.0@, r.1@) == shown_date_time(date_str@, language@),
{
    if date_str.unicode_len() == 0 {
        return (String::new(), String::new());
    }
    if let Some(dt) = parse_datetime(date_str, "%Y-%m-%dT%H:%M:%S") {
        return (format_datetime(&dt, date_pattern_for(language)), format_datetime(&dt, time_pattern_for(language)));
    }
    if let Some(dt) = parse_datetime(date_str, "%Y-%m-%dT%H:%M") {
        return (format_datetime(&dt, date_pattern_for(language)), format_datetime(&dt, time_pattern_for(language)));
    }
    if let Some(d) = parse_date(date_str, "%Y-%m-%d") {
        return (format_date(&d, date_pattern_for(language)), String::new());
    }
    (String::new(), String::new())
}

} // verus!
