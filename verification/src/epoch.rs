//! The enrollment epoch: a date-time written as `DD.MM.YYYY HH:MM:SS`, and
//! the second it names.

use vstd::prelude::*;
use crate::decimal::all_digits;
use crate::decimal::fixed_number;
use crate::decimal::padded;
use crate::decimal::parse_fixed;
use crate::decimal::render_padded;
use crate::error::OtpError;
use crate::text::append;
use crate::text::chars_of;
use crate::text::fields;
use crate::text::split_at_char;
use crate::text::split_fields;
use crate::text::split_on;
use crate::text::string_of;
use crate::text::texts;

verus! {

/// The six numbers of a date-time text, as they were written. They need not
/// name a date that exists.
#[derive(Clone, Copy, Debug, PartialEq, Eq, Structural)]
pub struct CalendarTime {
    pub year: u32,
    pub month: u32,
    pub day: u32,
    pub hour: u32,
    pub minute: u32,
    pub second: u32,
}

/// The layout in which a calendar time is handed to the calendar.
pub const ISO_LAYOUT: &'static str = "%Y-%m-%d %H:%M:%S";

/// The number of digits of a year.
pub const YEAR_DIGITS: usize = 4;

/// The number of digits of a day, a month, an hour, a minute and a second.
pub const FIELD_DIGITS: usize = 2;

/// The six numbers of the date-time text `text`, which must be written in
/// the layout `DD.MM.YYYY HH:MM:SS`.
///
/// The text must hold two fields between whitespace, a date and a time. The
/// date must be three numbers with a dot between them: day, month and year.
/// The time must be three numbers with a colon between them: hour, minute
/// and second. The year is exactly four decimal digits, every other number
/// exactly two; a sign, a missing digit or a digit too many is refused.
pub open spec fn calendar_time_of(text: Seq<char>) -> Option<CalendarTime> {
    let parts = fields(text);
    if parts.len() != 2 {
        None
    } else {
        let date = split_on(parts[0], '.');
        let time = split_on(parts[1], ':');
        if date.len() != 3 || time.len() != 3 {
            None
        } else if fixed_number(date[0], 2) is None || fixed_number(date[1], 2) is None
            || fixed_number(date[2], 4) is None || fixed_number(time[0], 2) is None
            || fixed_number(time[1], 2) is None || fixed_number(time[2], 2) is None {
            None
        } else {
            Some(
                CalendarTime {
                    year: fixed_number(date[2], 4)->Some_0 as u32,
                    month: fixed_number(date[1], 2)->Some_0 as u32,
                    day: fixed_number(date[0], 2)->Some_0 as u32,
                    hour: fixed_number(time[0], 2)->Some_0 as u32,
                    minute: fixed_number(time[1], 2)->Some_0 as u32,
                    second: fixed_number(time[2], 2)->Some_0 as u32,
                },
            )
        }
    }
}

/// Whether `s` is exactly `width` decimal digits.
pub open spec fn is_digits(s: Seq<char>, width: nat) -> bool {
    s.len() == width && all_digits(s)
}

/// A text is read only in the layout `DD.MM.YYYY HH:MM:SS`: where it is
/// read, its year is four decimal digits, and its day, month, hour, minute
/// and second are two decimal digits each. A text in which one of them has
/// another width, or a sign, names no second.
pub proof fn lemma_layout_is_fixed(text: Seq<char>)
    ensures
        calendar_time_of(text) is Some ==> {
            let date = split_on(fields(text)[0], '.');
            let time = split_on(fields(text)[1], ':');
            &&& fields(text).len() == 2
            &&& date.len() == 3
            &&& time.len() == 3
            &&& is_digits(date[0], 2)
            &&& is_digits(date[1], 2)
            &&& is_digits(date[2], 4)
            &&& is_digits(time[0], 2)
            &&& is_digits(time[1], 2)
            &&& is_digits(time[2], 2)
        },
        calendar_time_of(text) is None ==> epoch_seconds_spec(text) is None,
{
}

/// The calendar time `t` in the layout `YYYY-MM-DD HH:MM:SS`: the year padded
/// with zeros to four characters, every other number to two.
pub open spec fn iso_text(t: CalendarTime) -> Seq<char> {
    padded(t.year as int, 4) + seq!['-'] + padded(t.month as int, 2) + seq!['-'] + padded(
        t.day as int,
        2,
    ) + seq![' '] + padded(t.hour as int, 2) + seq![':'] + padded(t.minute as int, 2) + seq![':']
        + padded(t.second as int, 2)
}

/// Reads the six numbers of a date-time text in the layout
/// `DD.MM.YYYY HH:MM:SS`: two digits for every number but the year, which
/// has four. Whether the numbers name a date that exists is not looked at
/// here.
pub fn parse_datetime(text: &str) -> (r: Result<CalendarTime, OtpError>)
    ensures
        match r {
            Ok(t) => calendar_time_of(text@) == Some(t),
            Err(e) => e == OtpError::Format && calendar_time_of(text@) is None,
        },
{
    let chars = chars_of(text);
    let parts = split_fields(&chars);
    if parts.len() != 2 {
        return Err(OtpError::Format);
    }
    assert(texts(parts@)[0] == parts@[0]@ && texts(parts@)[1] == parts@[1]@);
    let date = split_at_char(&parts[0], '.');
    let time = split_at_char(&parts[1], ':');
    if date.len() != 3 || time.len() != 3 {
        return Err(OtpError::Format);
    }
    assert(texts(date@)[0] == date@[0]@ && texts(date@)[1] == date@[1]@ && texts(date@)[2]
        == date@[2]@);
    assert(texts(time@)[0] == time@[0]@ && texts(time@)[1] == time@[1]@ && texts(time@)[2]
        == time@[2]@);
    let day = match parse_fixed(&date[0], FIELD_DIGITS) {
        Some(x) => x,
        None => {
            return Err(OtpError::Format);
        },
    };
    let month = match parse_fixed(&date[1], FIELD_DIGITS) {
        Some(x) => x,
        None => {
            return Err(OtpError::Format);
        },
    };
    let year = match parse_fixed(&date[2], YEAR_DIGITS) {
        Some(x) => x,
        None => {
            return Err(OtpError::Format);
        },
    };
    let hour = match parse_fixed(&time[0], FIELD_DIGITS) {
        Some(x) => x,
        None => {
            return Err(OtpError::Format);
        },
    };
    let minute = match parse_fixed(&time[1], FIELD_DIGITS) {
        Some(x) => x,
        None => {
            return Err(OtpError::Format);
        },
    };
    let second = match parse_fixed(&time[2], FIELD_DIGITS) {
        Some(x) => x,
        None => {
            return Err(OtpError::Format);
        },
    };
    Ok(CalendarTime { year, month, day, hour, minute, second })
}

/// Writes a calendar time in the layout `YYYY-MM-DD HH:MM:SS`.
pub fn render_iso(t: &CalendarTime) -> (r: String)
    ensures
        r@ == iso_text(*t),
{
    let mut v: Vec<char> = render_padded(t.year as i64, 4);
    v.push('-');
    append(&mut v, &render_padded(t.month as i64, 2));
    v.push('-');
    append(&mut v, &render_padded(t.day as i64, 2));
    v.push(' ');
    append(&mut v, &render_padded(t.hour as i64, 2));
    v.push(':');
    append(&mut v, &render_padded(t.minute as i64, 2));
    v.push(':');
    append(&mut v, &render_padded(t.second as i64, 2));
    assert(v@ =~= iso_text(*t));
    string_of(&v)
}

/// The error of the calendar's parser. Nothing of it is read here.
#[verifier::external_type_specification]
#[verifier::external_body]
pub struct ExParseError(chrono::ParseError);

/// The second that the calendar finds in `text` when it reads it in the
/// layout `layout`: the number of seconds from 1970-01-01 00:00:00 to that
/// date-time, no time zone applied. `None` where the text does not fit the
/// layout or names no date-time.
pub uninterp spec fn calendar_second(text: Seq<char>, layout: Seq<char>) -> Option<i64>;

/// `chrono::NaiveDateTime::parse_from_str`, and of what it parsed
/// `and_utc().timestamp()`. The outcome depends on the two texts alone.
#[verifier::external_body]
fn parse_timestamp(text: &str, layout: &str) -> (r: Result<i64, chrono::ParseError>)
    ensures
        match r {
            Ok(second) => calendar_second(text@, layout@) == Some(second),
            Err(_) => calendar_second(text@, layout@) is None,
        },
{
    let parsed = chrono::NaiveDateTime::parse_from_str(text, layout)?;
    Ok(parsed.and_utc().timestamp())
}

/// The second that the date-time text `text` names, if it has the form
/// `DD.MM.YYYY HH:MM:SS` and the calendar knows the date-time.
pub open spec fn epoch_seconds_spec(text: Seq<char>) -> Option<i64> {
    match calendar_time_of(text) {
        Some(t) => calendar_second(iso_text(t), ISO_LAYOUT@),
        None => None,
    }
}

/// What `epoch_seconds` returns for a calendar time once the calendar has
/// answered: the second it found, or `OtpError::Format`.
pub fn second_or_format_error(found: Option<i64>) -> (r: Result<i64, OtpError>)
    ensures
        match found {
            Some(second) => r == Ok::<i64, OtpError>(second),
            None => r == Err::<i64, OtpError>(OtpError::Format),
        },
{
    match found {
        Some(second) => Ok(second),
        None => Err(OtpError::Format),
    }
}

/// The second that a date-time text of the form `DD.MM.YYYY HH:MM:SS` names,
/// counted from 1970-01-01 00:00:00 with no time zone applied.
///
/// Fails with `OtpError::Format` where the text has another form, or names
/// a date-time that the calendar does not know.
pub fn epoch_seconds(text: &str) -> (r: Result<i64, OtpError>)
    ensures
        match r {
            Ok(second) => epoch_seconds_spec(text@) == Some(second),
            Err(e) => e == OtpError::Format && epoch_seconds_spec(text@) is None,
        },
{
    let t = parse_datetime(text)?;
    let iso = render_iso(&t);
    let found = match parse_timestamp(iso.as_str(), ISO_LAYOUT) {
        Ok(second) => Some(second),
        Err(_) => None,
    };
    second_or_format_error(found)
}

} // verus!
