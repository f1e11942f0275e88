//! Times as text: the stamp in the name of a backup, and the time of a file's last
//! change. The calendar is chrono's; the library states what it takes from it.

use vstd::prelude::*;
use crate::decimal::digit_char;

verus! {

/// A date and a time of day as a clock on the wall shows them.
#[derive(Debug, Clone, Copy, PartialEq, Eq, Structural)]
pub struct WallTime {
    pub year: i32,
    pub month: u32,
    pub day: u32,
    pub hour: u32,
    pub minute: u32,
    pub second: u32,
}

/// A leap year of the Gregorian calendar.
pub open spec fn is_leap_year(year: int) -> bool {
    year % 4 == 0 && (year % 100 != 0 || year % 400 == 0)
}

/// The number of days of a month.
pub open spec fn days_in_month(year: int, month: int) -> int {
    if month == 2 {
        if is_leap_year(year) {
            29
        } else {
            28
        }
    } else if month == 4 || month == 6 || month == 9 || month == 11 {
        30
    } else {
        31
    }
}

/// A time that the calendar and the clock have, in the years 0 to 9999.
pub open spec fn is_calendar_time(t: WallTime) -> bool {
    &&& 0 <= t.year <= 9999
    &&& 1 <= t.month <= 12
    &&& 1 <= t.day <= days_in_month(t.year as int, t.month as int)
    &&& t.hour < 24
    &&& t.minute < 60
    &&& t.second < 60
}

/// A number below 100 in two digits.
pub open spec fn two_digits(n: int) -> Seq<char> {
    seq![digit_char(n / 10), digit_char(n % 10)]
}

/// The stamp of a time: year, month and day, an underscore, then hour, minute and
/// second, each in two digits but the year, which has four.
pub open spec fn stamp_text(t: WallTime) -> Seq<char> {
    two_digits(t.year as int / 100) + two_digits(t.year as int % 100) + two_digits(t.month as int)
        + two_digits(t.day as int) + seq!['_'] + two_digits(t.hour as int) + two_digits(
        t.minute as int,
    ) + two_digits(t.second as int)
}

/// The form of the stamp in the name of a backup.
pub const STAMP_FORMAT: &'static str = "%Y%m%d_%H%M%S";

/// The form in which the time of a file's last change is given.
pub const CHANGE_TIME_FORMAT: &'static str = "%Y-%m-%d %H:%M:%S";

/// The text that chrono gives for the moment `seconds` after the beginning of 1970, in
/// universal time and in the form `format`; nothing for a moment that lies outside its
/// calendar.
pub uninterp spec fn utc_text(seconds: int, format: Seq<char>) -> Option<Seq<char>>;

/// chrono's `NaiveDateTime::format`, on the date and time that `NaiveDate::from_ymd_opt`
/// and `NaiveDate::and_hms_opt` make of the six numbers. The two give nothing for a date
/// that the Gregorian calendar does not have and for a time that a clock does not show.
/// For the years 0 to 9999 the form `%Y%m%d_%H%M%S` writes the year in four digits and
/// every other number in two, with zeros in front.
#[verifier::external_body]
fn format_stamp(t: &WallTime, format: &str) -> (r: Option<String>)
    requires
        0 <= t.year <= 9999,
        format@ == STAMP_FORMAT@,
    ensures
        r is Some <==> is_calendar_time(*t),
        r is Some ==> r->Some_0@ == stamp_text(*t),
{
    let date = chrono::NaiveDate::from_ymd_opt(t.year, t.month, t.day)?;
    let time = date.and_hms_opt(t.hour, t.minute, t.second)?;
    Some(time.format(format).to_string())
}

/// chrono's `DateTime::from_timestamp`, which gives nothing for a moment outside its
/// calendar, and `DateTime::format` on what it gives. The form is the one in which the
/// time of a file's last change is given; chrono knows every part of it.
#[verifier::external_body]
pub(crate) fn format_utc(seconds: i64, format: &str) -> (r: Option<String>)
    requires
        format@ == CHANGE_TIME_FORMAT@,
    ensures
        r is Some <==> utc_text(seconds as int, format@) is Some,
        r is Some ==> r->Some_0@ == utc_text(seconds as int, format@)->Some_0,
{
    let moment = chrono::DateTime::from_timestamp(seconds, 0)?;
    Some(moment.format(format).to_string())
}

/// The stamp that a backup made at `time` carries in its name. A time that the
/// calendar does not have, or one outside the years 0 to 9999, has no stamp.
pub fn backup_stamp(time: &WallTime) -> (r: Option<String>)
    ensures
        r is Some <==> is_calendar_time(*time),
        r is Some ==> r->Some_0@ == stamp_text(*time),
{
    if time.year < 0 || time.year > 9999 {
        None
    } else {
        format_stamp(time, STAMP_FORMAT)
    }
}

} // verus!
