use chrono::{Datelike, Timelike};
use vstd::prelude::*;

verus! {

/// A calendar date, as year, month (1 to 12) and day of the month.
#[derive(Clone, Copy, Debug, PartialEq, Eq, Structural)]
pub struct Date {
    pub year: i32,
    pub month: u32,
    pub day: u32,
}

/// A calendar date with a time of day, to the second.
#[derive(Clone, Copy, Debug, PartialEq, Eq, Structural)]
pub struct DateTime {
    pub date: Date,
    pub hour: u32,
    pub minute: u32,
    pub second: u32,
}

/// What `chrono::NaiveDate::parse_from_str` makes of `text` under the strftime
/// pattern `format`, as a plain date.
pub uninterp spec fn parsed_date(text: Seq<char>, format: Seq<char>) -> Option<Date>;

/// What `chrono::NaiveDateTime::parse_from_str` makes of `text` under the
/// strftime pattern `format`, as a plain date and time.
pub uninterp spec fn parsed_datetime(text: Seq<char>, format: Seq<char>) -> Option<DateTime>;

/// `a` falls on a later day than `b`.
pub open spec fn date_later(a: Date, b: Date) -> bool {
    a.year > b.year || (a.year == b.year && (a.month > b.month || (a.month == b.month && a.day
        > b.day)))
}

/// Relies on `chrono::NaiveDate::parse_from_str`: the parse of `text` under
/// `format`, which depends on the two strings alone; `None` where chrono
/// reports an error.
#[verifier::external_body]
pub(crate) fn parse_date_with(text: &str, format: &str) -> (r: Option<Date>)
    ensures
        r == parsed_date(text@, format@),
{
    match chrono::NaiveDate::parse_from_str(text, format) {
        Ok(d) => Some(Date { year: d.year(), month: d.month(), day: d.day() }),
        Err(_) => None,
    }
}

/// Relies on `chrono::NaiveDateTime::parse_from_str`: the parse of `text`
/// under `format`, which depends on the two strings alone; `None` where chrono
/// reports an error.
#[verifier::external_body]
fn parse_datetime_with(text: &str, format: &str) -> (r: Option<DateTime>)
    ensures
        r == parsed_datetime(text@, format@),
{
    match chrono::NaiveDateTime::parse_from_str(text, format) {
        Ok(t) => Some(
            DateTime {
                date: Date { year: t.year(), month: t.month(), day: t.day() },
                hour: t.hour(),
                minute: t.minute(),
                second: t.second(),
            },
        ),
        Err(_) => None,
    }
}

/// The date that a metadata value denotes: `YYYY-MM-DD` first, then
/// `YYYY/MM/DD`; nothing when neither reads.
pub open spec fn decoded_date(text: Seq<char>) -> Option<Date> {
    match parsed_date(text, "%Y-%m-%d"@) {
        Some(d) => Some(d),
        None => parsed_date(text, "%Y/%m/%d"@),
    }
}

/// Decodes a metadata date, accepting `YYYY-MM-DD` and `YYYY/MM/DD`; a value in
/// neither form is absent rather than an error.
pub fn decode_date(text: &str) -> (r: Option<Date>)
    ensures
        r == decoded_date(text@),
{
    match parse_date_with(text, "%Y-%m-%d") {
        Some(d) => Some(d),
        None => parse_date_with(text, "%Y/%m/%d"),
    }
}

/// The date and time that a metadata value denotes: `YYYY-MM-DD HH:MM:SS`,
/// then `YYYY-MM-DDTHH:MM:SS`, then a bare `YYYY-MM-DD` at midnight.
pub open spec fn decoded_datetime(text: Seq<char>) -> Option<DateTime> {
    match parsed_datetime(text, "%Y-%m-%d %H:%M:%S"@) {
        Some(t) => Some(t),
        None => match parsed_datetime(text, "%Y-%m-%dT%H:%M:%S"@) {
            Some(t) => Some(t),
            None => match parsed_date(text, "%Y-%m-%d"@) {
                Some(d) => Some(DateTime { date: d, hour: 0, minute: 0, second: 0 }),
                None => None,
            },
        },
    }
}

/// Decodes a metadata timestamp; a value in none of the accepted forms is
/// absent rather than an error.
pub fn decode_datetime(text: &str) -> (r: Option<DateTime>)
    ensures
        r == decoded_datetime(text@),
{
    match parse_datetime_with(text, "%Y-%m-%d %H:%M:%S") {
        Some(t) => Some(t),
        None => match parse_datetime_with(text, "%Y-%m-%dT%H:%M:%S") {
            Some(t) => Some(t),
            None => match parse_date_with(text, "%Y-%m-%d") {
                Some(d) => Some(DateTime { date: d, hour: 0, minute: 0, second: 0 }),
                None => None,
            },
        },
    }
}

/// Whether `a` falls on a later day than `b`.
pub fn is_later(a: &Date, b: &Date) -> (r: bool)
    ensures
        r == date_later(*a, *b),
{
    a.year > b.year || (a.year == b.year && (a.month > b.month || (a.month == b.month && a.day
        > b.day)))
}

} // verus!
