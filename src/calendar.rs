//! The calendar file (iCalendar) offered for an invitation.

use vstd::prelude::*;
use vstd::string::*;
use chrono::{Datelike, Timelike};
use crate::datetime::{LocalDate, LocalDateTime, parse_datetime, parsed_datetime, format_datetime, formatted_datetime};

verus! {

/// What chrono's `NaiveDateTime::checked_add_signed` gives for a date and
/// time moved by a number of minutes.
pub uninterp spec fn moved_by_minutes(dt: LocalDateTime, minutes: i64) -> Option<LocalDateTime>;

/// Relies on chrono's NaiveDateTime::checked_add_signed, with the minutes
/// made a `TimeDelta` by `TimeDelta::try_minutes`: `None` where the result
/// leaves chrono's range; a value chrono holds is always valid.
#[verifier::external_body]
pub fn add_minutes(dt: &LocalDateTime, minutes: i64) -> (r: Option<LocalDateTime>)
    requires
        dt.valid(),
    ensures
        r == moved_by_minutes(*dt, minutes),
        r matches Some(x) ==> x.valid(),
{
    let d = chrono::NaiveDate::from_ymd_opt(dt.date.year, dt.date.month, dt.date.day).unwrap();
    let start = d.and_hms_nano_opt(dt.hour, dt.minute, dt.second, dt.nanosecond).unwrap();
    let moved = start.checked_add_signed(chrono::TimeDelta::try_minutes(minutes)?)?;
    Some(LocalDateTime {
        date: LocalDate { year: moved.year(), month: moved.month(), day: moved.day() },
        hour: moved.hour(), minute: moved.minute(), second: moved.second(), nanosecond: moved.nanosecond(),
    })
}

/// A character as written in an iCalendar text value: commas and line
/// breaks are escaped with a backslash.
pub open spec fn ics_piece(c: char) -> Seq<char> {
    if c == ',' {
        "\\,"@
    } else if c == '\n' {
        "\\n"@
    } else {
        seq![c]
    }
}

/// A text as written in an iCalendar text value.
pub open spec fn ics_escaped(s: Seq<char>) -> Seq<char>
    decreases s.len(),
{
    if s.len() == 0 {
        Seq::empty()
    } else {
        ics_escaped(s.drop_last()) + ics_piece(s.last())
    }
}

/// A character as written in a download's file name: slashes and
/// backslashes become dashes.
pub open spec fn file_piece(c: char) -> Seq<char> {
    if c == '/' || c == '\\' {
        "-"@
    } else {
        seq![c]
    }
}

/// A text as written in a download's file name.
pub open spec fn file_safe(s: Seq<char>) -> Seq<char>
    decreases s.len(),
{
    if s.len() == 0 {
        Seq::empty()
    } else {
        file_safe(s.drop_last()) + file_piece(s.last())
    }
}

/// Escapes a text for an iCalendar text value (see `ics_escaped`).
pub fn escape_ics(s: &str) -> (r: String)
    ensures
        r@ == ics_escaped(s@),
{
    let n = s.unicode_len();
    let mut out = String::new();
    let mut i: usize = 0;
    while i < n
        invariant
            n == s@.len(),
            i <= n,
            out@ == ics_escaped(s@.subrange(0, i as int)),
        decreases n - i,
    {
        proof {
            let next = s@.subrange(0, i + 1);
            assert(next.drop_last() =~= s@.subrange(0, i as int));
            assert(next.last() == s@[i as int]);
        }
        let c = s.get_char(i);
        if c == ',' {
            out.append("\\,");
        } else if c == '\n' {
            out.append("\\n");
        } else {
            let one = s.substring_char(i, i + 1);
            assert(one@ =~= seq![c]);
            out.append(one);
        }
        i = i + 1;
    }
    assert(s@.subrange(0, n as int) =~= s@);
    out
}

/// Makes a text safe as a download's file name (see `file_safe`).
pub fn safe_file_name(s: &str) -> (r: String)
    ensures
        r@ == file_safe(s@),
{
    let n = s.unicode_len();
    let mut out = String::new();
    let mut i: usize = 0;
    while i < n
        invariant
            n == s@.len(),
            i <= n,
            out@ == file_safe(s@.subrange(0, i as int)),
        decreases n - i,
    {
        proof {
            let next = s@.subrange(0, i + 1);
            assert(next.drop_last() =~= s@.subrange(0, i as int));
            assert(next.last() == s@[i as int]);
        }
        let c = s.get_char(i);
        if c == '/' || c == '\\' {
            out.append("-");
        } else {
            let one = s.substring_char(i, i + 1);
            assert(one@ =~= seq![c]);
            out.append(one);
        }
        i = i + 1;
    }
    assert(s@.subrange(0, n as int) =~= s@);
    out
}

/// Why no calendar file can be made.
#[derive(Clone, Copy, PartialEq, Eq, Structural, Debug)]
pub enum CalendarError {
    /// The party's date is not a date and time.
    InvalidDate,
    /// The party's end lies outside the range of dates.
    EndOutOfRange,
}

/// A calendar file: its text and the value of its Content-Disposition
/// header.
pub struct CalendarFile {
    pub body: String,
    pub disposition: String,
}

/// The start of a party as a calendar reads it: its date and time with or
/// without seconds.
pub open spec fn party_start(date: Seq<char>) -> Option<LocalDateTime> {
    if parsed_datetime(date, "%Y-%m-%dT%H:%M:%S"@) is Some {
        parsed_datetime(date, "%Y-%m-%dT%H:%M:%S"@)
    } else {
        parsed_datetime(date, "%Y-%m-%dT%H:%M"@)
    }
}

/// The link to an invitation.
pub open spec fn invitation_url(invitation_id: Seq<char>) -> Seq<char> {
    "https://party-hub.com/"@ + invitation_id
}

/// The text of the calendar file for an invitation.
pub open spec fn ics_text(
    invitation_id: Seq<char>,
    stamp: Seq<char>,
    start: Seq<char>,
    end: Seq<char>,
    name: Seq<char>,
    location: Seq<char>,
) -> Seq<char> {
    "BEGIN:VCALENDAR\r\nVERSION:2.0\r\nPRODID:-//Party Hub//EN\r\nCALSCALE:GREGORIAN\r\nMETHOD:PUBLISH\r\nBEGIN:VEVENT\r\nUID:"@
        + invitation_id + "@party-hub"@
        + "\r\nDTSTAMP:"@ + stamp
        + "\r\nDTSTART:"@ + start
        + "\r\nDTEND:"@ + end
        + "\r\nSUMMARY:"@ + ics_escaped(name)
        + "\r\nLOCATION:"@ + ics_escaped(location)
        + "\r\nDESCRIPTION:Invitation link: "@ + invitation_url(invitation_id)
        + "\r\nURL:"@ + invitation_url(invitation_id)
        + "\r\nEND:VEVENT\r\nEND:VCALENDAR\r\n"@
}

/// The Content-Disposition of the calendar file of a party.
pub open spec fn ics_disposition(name: Seq<char>) -> Seq<char> {
    "inline; filename=\""@ + file_safe(name) + ".ics\""@
}

/// The calendar file for an invitation to a party that starts at the
/// stored `date` and lasts `duration_minutes`, stamped at `now` (UTC).
pub open spec fn calendar_outcome(
    invitation_id: Seq<char>,
    name: Seq<char>,
    date: Seq<char>,
    duration_minutes: i64,
    location: Seq<char>,
    now: LocalDateTime,
) -> Result<(Seq<char>, Seq<char>), CalendarError> {
    match party_start(date) {
        None => Err(CalendarError::InvalidDate),
        Some(start) => match moved_by_minutes(start, duration_minutes) {
            None => Err(CalendarError::EndOutOfRange),
            Some(end) => Ok((
                ics_text(
                    invitation_id,
                    formatted_datetime(now, "%Y%m%dT%H%M%SZ"@),
                    formatted_datetime(start, "%Y%m%dT%H%M%S"@),
                    formatted_datetime(end, "%Y%m%dT%H%M%S"@),
                    name,
                    location,
                ),
                ics_disposition(name),
            )),
        },
    }
}

/// Makes the calendar file for an invitation (see `calendar_outcome`).
pub fn calendar_file(
    invitation_id: &str,
    name: &str,
    date: &str,
    duration_minutes: i64,
    location: &str,
    now: &LocalDateTime,
) -> (r: Result<CalendarFile, CalendarError>)
    requires
        now.valid(),
    ensures
        match r {
            Ok(f) => calendar_outcome(invitation_id@, name@, date@, duration_minutes, location@, *now)
                == Ok::<(Seq<char>, Seq<char>), CalendarError>((f.body@, f.disposition@)),
            Err(e) => calendar_outcome(invitation_id@, name@, date@, duration_minutes, location@, *now)
                == Err::<(Seq<char>, Seq<char>), CalendarError>(e),
        },
{
    let start = match parse_datetime(date, "%Y-%m-%dT%H:%M:%S") {
        Some(dt) => dt,
        None => match parse_datetime(date, "%Y-%m-%dT%H:%M") {
            Some(dt) => dt,
            None => return Err(CalendarError::InvalidDate),
        },
    };
    let end = match add_minutes(&start, duration_minutes) {
        Some(dt) => dt,
        None => return Err(CalendarError::EndOutOfRange),
    };
    let stamp = format_datetime(now, "%Y%m%dT%H%M%SZ");
    let dtstart = format_datetime(&start, "%Y%m%dT%H%M%S");
    let dtend = format_datetime(&end, "%Y%m%dT%H%M%S");
    let url = String::from_str("https://party-hub.com/").concat(invitation_id);
    let body = String::from_str(
        "BEGIN:VCALENDAR\r\nVERSION:2.0\r\nPRODID:-//Party Hub//EN\r\nCALSCALE:GREGORIAN\r\nMETHOD:PUBLISH\r\nBEGIN:VEVENT\r\nUID:",
    ).concat(invitation_id).concat("@party-hub")
        .concat("\r\nDTSTAMP:").concat(stamp.as_str())
        .concat("\r\nDTSTART:").concat(dtstart.as_str())
        .concat("\r\nDTEND:").concat(dtend.as_str())
        .concat("\r\nSUMMARY:").concat(escape_ics(name).as_str())
        .concat("\r\nLOCATION:").concat(escape_ics(location).as_str())
        .concat("\r\nDESCRIPTION:Invitation link: ").concat(url.as_str())
        .concat("\r\nURL:").concat(url.as_str())
        .concat("\r\nEND:VEVENT\r\nEND:VCALENDAR\r\n");
    let disposition = String::from_str("inline; filename=\"").concat(safe_file_name(name).as_str()).concat(".ics\"");
    Ok(CalendarFile { body, disposition })
}

} // verus!
