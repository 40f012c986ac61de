use chrono::{Datelike, Timelike};
use vstd::prelude::*;

verus! {

/// An instant in UTC, held as its calendar and clock components.
#[derive(Clone, Copy, Debug, PartialEq, Eq, Structural)]
pub struct UtcDateTime {
    pub year: i32,
    pub month: u32,
    pub day: u32,
    pub hour: u32,
    pub minute: u32,
    pub second: u32,
    /// Nanoseconds past the second; from one billion on it marks a leap second.
    pub nanosecond: u32,
}

impl UtcDateTime {
    /// Every component lies in its calendar or clock range.
    pub open spec fn wf(self) -> bool {
        &&& 1 <= self.month <= 12
        &&& 1 <= self.day <= 31
        &&& self.hour <= 23
        &&& self.minute <= 59
        &&& self.second <= 59
        &&& self.nanosecond <= 1_999_999_999
    }
}

/// The components of a parsed date and time:
/// (year, month, day, hour, minute, second, nanosecond).
pub type DateTimeParts = (i32, u32, u32, u32, u32, u32, u32);

/// What a strftime-style parse of `value` against `fmt` yields, if it succeeds.
pub uninterp spec fn naive_parse(value: Seq<char>, fmt: Seq<char>) -> Option<DateTimeParts>;

pub open spec fn parts_in_range(p: DateTimeParts) -> bool {
    &&& 1 <= p.1 <= 12
    &&& 1 <= p.2 <= 31
    &&& p.3 <= 23
    &&& p.4 <= 59
    &&& p.5 <= 59
    &&& p.6 <= 1_999_999_999
}

/// Relies on chrono's `NaiveDateTime::parse_from_str`, which parses `value`
/// against the strftime format `fmt`, and on chrono's `Datelike` and
/// `Timelike` accessors, whose documented ranges are stated here.
#[verifier::external_body]
fn parse_naive(value: &str, fmt: &str) -> (r: Option<DateTimeParts>)
    ensures
        r == naive_parse(value@, fmt@),
        r matches Some(p) ==> parts_in_range(p),
{
    match chrono::NaiveDateTime::parse_from_str(value, fmt) {
        Ok(d) => Some(
            (d.year(), d.month(), d.day(), d.hour(), d.minute(), d.second(), d.nanosecond()),
        ),
        Err(_) => None,
    }
}

/// The instant that parsed components name, read as UTC.
pub open spec fn utc_of(p: DateTimeParts) -> UtcDateTime {
    UtcDateTime {
        year: p.0,
        month: p.1,
        day: p.2,
        hour: p.3,
        minute: p.4,
        second: p.5,
        nanosecond: p.6,
    }
}

/// The format with a month abbreviation: `Jan 10 08:29:52 2023 GMT`.
pub open spec fn month_name_format() -> Seq<char> {
    "%b %d %H:%M:%S %Y GMT"@
}

/// The numeric format: `2023-01-10 08:29:52 GMT`.
pub open spec fn numeric_format() -> Seq<char> {
    "%Y-%m-%d %H:%M:%S GMT"@
}

pub open spec fn date_error(value: Seq<char>) -> Seq<char> {
    "can not parse date <"@ + value + ">"@
}

/// The outcome of parsing a date: the first format that matches decides.
pub open spec fn date_result(value: Seq<char>) -> Result<UtcDateTime, Seq<char>> {
    match naive_parse(value, month_name_format()) {
        Some(p) => Ok(utc_of(p)),
        None => match naive_parse(value, numeric_format()) {
            Some(p) => Ok(utc_of(p)),
            None => Err(date_error(value)),
        },
    }
}

pub open spec fn date_result_view(r: Result<UtcDateTime, String>) -> Result<UtcDateTime, Seq<char>> {
    match r {
        Ok(d) => Ok(d),
        Err(e) => Err(e@),
    }
}

fn to_utc(p: DateTimeParts) -> (r: UtcDateTime)
    ensures
        r == utc_of(p),
{
    UtcDateTime {
        year: p.0,
        month: p.1,
        day: p.2,
        hour: p.3,
        minute: p.4,
        second: p.5,
        nanosecond: p.6,
    }
}

/// The date that a parse in the last format tried gives, or the error that
/// names `value` where that parse failed too.
pub fn date_from_parse(value: &str, parsed: Option<DateTimeParts>) -> (r: Result<
    UtcDateTime,
    String,
>)
    ensures
        date_result_view(r) == match parsed {
            Some(p) => Ok(utc_of(p)),
            None => Err(date_error(value@)),
        },
        r matches Ok(d) ==> parsed matches Some(p) && d == utc_of(p),
{
    match parsed {
        Some(p) => Ok(to_utc(p)),
        None => {
            let mut msg = String::from_str("can not parse date <");
            msg.append(value);
            msg.append(">");
            Err(msg)
        },
    }
}

/// Parses a certificate date in either known format, reading it as UTC.
pub fn parse_date(value: &str) -> (r: Result<UtcDateTime, String>)
    ensures
        date_result_view(r) == date_result(value@),
        r matches Ok(d) ==> d.wf(),
{
    let first = parse_naive(value, "%b %d %H:%M:%S %Y GMT");
    match first {
        Some(p) => Ok(to_utc(p)),
        None => date_from_parse(value, parse_naive(value, "%Y-%m-%d %H:%M:%S GMT")),
    }
}

} // verus!
