//! Timestamps, the clock, and calendar time in the reference time zone.
//!
//! Times of day from the timetable are read in one fixed zone,
//! Europe/Berlin. The conversions between Unix timestamps and calendar time
//! are left to the time-zone database, and so is the writing of calendar
//! time as text; this module says what they give.

use vstd::prelude::*;
use vstd::string::StringExecFns;
use std::time::SystemTime;
use chrono::{DateTime, Datelike, TimeZone, Timelike, Utc};
use chrono_tz::Europe::Berlin;
use crate::text::{padded_decimal, two_digits, TimeOfDay};

verus! {

/// The pattern that writes a time of day as `HH:MM:SS`.
pub const CLOCK_FORMAT: &'static str = "%H:%M:%S";

/// The pattern that writes a date as `YYYYMMDD`.
pub const DATE_FORMAT: &'static str = "%Y%m%d";

/// The pattern that writes a date and time as HTTP headers do.
pub const HTTP_DATE_FORMAT: &'static str = "%a, %d %b %Y %H:%M:%S GMT";

/// A point in time as a calendar date, a time of day and a day of the week:
/// months and days count from 1, weekdays from Monday as 0.
#[derive(Debug, Clone, Copy, PartialEq, Eq, Structural)]
pub struct CivilTime {
    pub year: i32,
    pub month: u32,
    pub day: u32,
    pub hour: u32,
    pub minute: u32,
    pub second: u32,
    pub weekday: u32,
}

/// The calendar time in Europe/Berlin at `timestamp`, a number of seconds
/// since the Unix epoch; nothing where the calendar does not reach that far.
pub uninterp spec fn berlin_civil(timestamp: i64) -> Option<CivilTime>;

/// The calendar time in UTC at `timestamp`, a number of seconds since the
/// Unix epoch; nothing where the calendar does not reach that far.
pub uninterp spec fn utc_civil(timestamp: i64) -> Option<CivilTime>;

/// The Unix timestamp at which the clocks in Europe/Berlin show the given
/// date and time; nothing where they never show it, or show it twice, as
/// around a change of daylight saving time.
pub uninterp spec fn berlin_timestamp(year: i32, month: u32, day: u32, hour: u32, minute: u32, second: u32) -> Option<i64>;

/// The three-letter English name of a weekday, Monday being 0; every number
/// from 6 on counts as Sunday.
pub open spec fn weekday_abbreviation(weekday: u32) -> Seq<char> {
    if weekday == 0 {
        "Mon"@
    } else if weekday == 1 {
        "Tue"@
    } else if weekday == 2 {
        "Wed"@
    } else if weekday == 3 {
        "Thu"@
    } else if weekday == 4 {
        "Fri"@
    } else if weekday == 5 {
        "Sat"@
    } else {
        "Sun"@
    }
}

/// The three-letter English name of a month, January being 1; every number
/// that is no month counts as December.
pub open spec fn month_abbreviation(month: u32) -> Seq<char> {
    if month == 1 {
        "Jan"@
    } else if month == 2 {
        "Feb"@
    } else if month == 3 {
        "Mar"@
    } else if month == 4 {
        "Apr"@
    } else if month == 5 {
        "May"@
    } else if month == 6 {
        "Jun"@
    } else if month == 7 {
        "Jul"@
    } else if month == 8 {
        "Aug"@
    } else if month == 9 {
        "Sep"@
    } else if month == 10 {
        "Oct"@
    } else if month == 11 {
        "Nov"@
    } else {
        "Dec"@
    }
}

/// A year as calendars print it: four digits from 0 to 9999, and otherwise a
/// sign followed by at least four digits.
pub open spec fn year_text(year: i32) -> Seq<char> {
    if year < 0 {
        seq!['-'] + padded_decimal((-year) as nat, 4)
    } else if year > 9999 {
        seq!['+'] + padded_decimal(year as nat, 4)
    } else {
        padded_decimal(year as nat, 4)
    }
}

impl CivilTime {
    /// Every field lies in its range: months 1 to 12, days 1 to 31, hours
    /// below 24, minutes and seconds below 60, weekdays below 7.
    pub open spec fn well_formed(self) -> bool {
        &&& 1 <= self.month <= 12
        &&& 1 <= self.day <= 31
        &&& self.hour < 24
        &&& self.minute < 60
        &&& self.second < 60
        &&& self.weekday < 7
    }

    /// Whether every field lies in its range.
    pub fn is_well_formed(&self) -> (valid: bool)
        ensures
            valid == self.well_formed(),
    {
        1 <= self.month && self.month <= 12 && 1 <= self.day && self.day <= 31 && self.hour < 24 && self.minute < 60
            && self.second < 60 && self.weekday < 7
    }

    /// The time of day as `HH:MM:SS`.
    pub open spec fn clock_text(self) -> Seq<char> {
        two_digits(self.hour as nat) + seq![':'] + two_digits(self.minute as nat) + seq![':'] + two_digits(
            self.second as nat,
        )
    }

    /// The date as `YYYYMMDD`.
    pub open spec fn date_text(self) -> Seq<char> {
        year_text(self.year) + two_digits(self.month as nat) + two_digits(self.day as nat)
    }

    /// The date and time as HTTP headers write them, such as
    /// `Tue, 15 Nov 1994 08:12:31 GMT`.
    pub open spec fn http_date_text(self) -> Seq<char> {
        weekday_abbreviation(self.weekday) + seq![',', ' '] + two_digits(self.day as nat) + seq![' ']
            + month_abbreviation(self.month) + seq![' '] + year_text(self.year) + seq![' '] + self.clock_text()
            + seq![' ', 'G', 'M', 'T']
    }
}

/// Whether `pattern` is one of the three patterns that this module writes
/// calendar time by.
pub open spec fn known_format(pattern: Seq<char>) -> bool {
    pattern == CLOCK_FORMAT@ || pattern == DATE_FORMAT@ || pattern == HTTP_DATE_FORMAT@
}

/// The text of a calendar time under one of the three patterns.
pub open spec fn formatted(time: CivilTime, pattern: Seq<char>) -> Seq<char> {
    if pattern == CLOCK_FORMAT@ {
        time.clock_text()
    } else if pattern == DATE_FORMAT@ {
        time.date_text()
    } else {
        time.http_date_text()
    }
}

/// The three patterns differ from one another.
pub proof fn lemma_formats_differ()
    ensures
        CLOCK_FORMAT@ != DATE_FORMAT@,
        CLOCK_FORMAT@ != HTTP_DATE_FORMAT@,
        DATE_FORMAT@ != HTTP_DATE_FORMAT@,
{
    reveal_strlit("%H:%M:%S");
    reveal_strlit("%Y%m%d");
    reveal_strlit("%a, %d %b %Y %H:%M:%S GMT");
    assert(CLOCK_FORMAT@.len() == 8);
    assert(DATE_FORMAT@.len() == 6);
    assert(HTTP_DATE_FORMAT@.len() == 25);
}

/// `SystemTime::now`, chrono's conversion of it to a `DateTime<Utc>` and
/// `DateTime::timestamp`: the system clock's reading in whole seconds since
/// the Unix epoch, negative for a clock set before 1970. Nothing is claimed
/// of a reading: two calls may differ. (The conversion takes every clock
/// within chrono's calendar, which ends some 262,000 years from now.)
#[verifier::external_body]
pub(crate) fn unix_now() -> (now: i64) {
    DateTime::<Utc>::from(SystemTime::now()).timestamp()
}

/// `TimeZone::timestamp_opt` on `chrono_tz::Europe::Berlin`, and the
/// `Datelike` and `Timelike` fields of the `DateTime` it gives. The fields
/// lie in the ranges that chrono documents for them.
#[verifier::external_body]
fn berlin_civil_time(timestamp: i64) -> (civil: Option<CivilTime>)
    ensures
        civil == berlin_civil(timestamp),
        civil matches Some(time) ==> time.well_formed(),
{
    Berlin.timestamp_opt(timestamp, 0).single().map(|t| CivilTime {
        year: t.year(),
        month: t.month(),
        day: t.day(),
        hour: t.hour(),
        minute: t.minute(),
        second: t.second(),
        weekday: t.weekday().num_days_from_monday(),
    })
}

/// `TimeZone::timestamp_opt` on `Utc`, and the `Datelike` and `Timelike`
/// fields of the `DateTime` it gives. The fields lie in the ranges that
/// chrono documents for them.
#[verifier::external_body]
fn utc_civil_time(timestamp: i64) -> (civil: Option<CivilTime>)
    ensures
        civil == utc_civil(timestamp),
        civil matches Some(time) ==> time.well_formed(),
{
    Utc.timestamp_opt(timestamp, 0).single().map(|t| CivilTime {
        year: t.year(),
        month: t.month(),
        day: t.day(),
        hour: t.hour(),
        minute: t.minute(),
        second: t.second(),
        weekday: t.weekday().num_days_from_monday(),
    })
}

/// `TimeZone::with_ymd_and_hms` on `chrono_tz::Europe::Berlin`, then
/// `DateTime::timestamp` of the single instant it maps to, if it maps to
/// exactly one.
#[verifier::external_body]
fn berlin_local_timestamp(year: i32, month: u32, day: u32, hour: u32, minute: u32, second: u32) -> (timestamp: Option<i64>)
    ensures
        timestamp == berlin_timestamp(year, month, day, hour, minute, second),
{
    Berlin.with_ymd_and_hms(year, month, day, hour, minute, second).single().map(|t| t.timestamp())
}

/// `TimeZone::timestamp_opt` on `chrono_tz::Europe::Berlin` and
/// `DateTime::format` of what it gives: the calendar time in Europe/Berlin
/// at `timestamp`, written by `pattern`. Under the three patterns chrono
/// writes hour, minute, second, month and day as two digits, the year as
/// [`year_text`] says, and the names of weekdays and months in English.
#[verifier::external_body]
fn format_berlin(timestamp: i64, pattern: &str) -> (text: Option<String>)
    requires
        known_format(pattern@),
    ensures
        text is Some == berlin_civil(timestamp) is Some,
        text matches Some(written) ==> berlin_civil(timestamp)->0.well_formed(),
        text matches Some(written) ==> written@ == formatted(berlin_civil(timestamp)->0, pattern@),
{
    Berlin.timestamp_opt(timestamp, 0).single().map(|t| t.format(pattern).to_string())
}

/// `TimeZone::timestamp_opt` on `Utc` and `DateTime::format` of what it
/// gives: the calendar time in UTC at `timestamp`, written by `pattern`, in
/// the way that [`format_berlin`] describes.
#[verifier::external_body]
fn format_utc(timestamp: i64, pattern: &str) -> (text: Option<String>)
    requires
        known_format(pattern@),
    ensures
        text is Some == utc_civil(timestamp) is Some,
        text matches Some(written) ==> utc_civil(timestamp)->0.well_formed(),
        text matches Some(written) ==> written@ == formatted(utc_civil(timestamp)->0, pattern@),
{
    Utc.timestamp_opt(timestamp, 0).single().map(|t| t.format(pattern).to_string())
}

/// The calendar time in Europe/Berlin at `timestamp`.
pub fn berlin_time_at(timestamp: i64) -> (civil: Option<CivilTime>)
    ensures
        civil == berlin_civil(timestamp),
        civil matches Some(time) ==> time.well_formed(),
{
    berlin_civil_time(timestamp)
}

/// The calendar time in UTC at `timestamp`.
pub fn utc_time_at(timestamp: i64) -> (civil: Option<CivilTime>)
    ensures
        civil == utc_civil(timestamp),
        civil matches Some(time) ==> time.well_formed(),
{
    utc_civil_time(timestamp)
}

/// Reads the clock and gives its reading as calendar time in Europe/Berlin.
pub fn berlin_now() -> (civil: Option<CivilTime>)
    ensures
        exists|now: i64| civil == berlin_civil(now),
        civil matches Some(time) ==> time.well_formed(),
{
    let now = unix_now();
    berlin_civil_time(now)
}

/// The Unix timestamp at which the clocks in Europe/Berlin show the time of
/// day `time` on the date of `date`, if they show it exactly once.
pub fn berlin_timestamp_on(date: &CivilTime, time: TimeOfDay) -> (timestamp: Option<i64>)
    ensures
        timestamp == berlin_timestamp(date.year, date.month, date.day, time.hour, time.minute, time.second),
{
    berlin_local_timestamp(date.year, date.month, date.day, time.hour, time.minute, time.second)
}

/// The time of day in Europe/Berlin at `timestamp`, as `HH:MM:SS`; nothing
/// where the calendar does not reach the timestamp.
pub fn berlin_clock_at(timestamp: i64) -> (text: Option<String>)
    ensures
        text is Some == berlin_civil(timestamp) is Some,
        text matches Some(written) ==> berlin_civil(timestamp)->0.well_formed(),
        text matches Some(written) ==> written@ == berlin_civil(timestamp)->0.clock_text(),
{
    format_berlin(timestamp, CLOCK_FORMAT)
}

/// The date in Europe/Berlin at `timestamp`, as `YYYYMMDD`; nothing where
/// the calendar does not reach the timestamp.
pub fn berlin_date_at(timestamp: i64) -> (text: Option<String>)
    ensures
        text is Some == berlin_civil(timestamp) is Some,
        text matches Some(written) ==> berlin_civil(timestamp)->0.well_formed(),
        text matches Some(written) ==> written@ == berlin_civil(timestamp)->0.date_text(),
{
    proof {
        lemma_formats_differ();
    }
    format_berlin(timestamp, DATE_FORMAT)
}

/// The date and time in UTC at `timestamp`, as HTTP headers write them;
/// nothing where the calendar does not reach the timestamp.
pub fn http_date_at(timestamp: i64) -> (text: Option<String>)
    ensures
        text is Some == utc_civil(timestamp) is Some,
        text matches Some(written) ==> utc_civil(timestamp)->0.well_formed(),
        text matches Some(written) ==> written@ == utc_civil(timestamp)->0.http_date_text(),
{
    proof {
        lemma_formats_differ();
    }
    format_utc(timestamp, HTTP_DATE_FORMAT)
}

/// What [`GTFSTime::to_string`] writes: the time of day of a calendar time,
/// or a fixed text where there is no calendar time.
pub open spec fn time_text(civil: Option<CivilTime>) -> Seq<char> {
    match civil {
        Some(time) => time.clock_text(),
        None => "Invalid Time"@,
    }
}

/// The written time of day, and `Invalid Time` where there is none.
pub fn describe_time(clock: Option<String>) -> (text: String)
    ensures
        text@ == match clock {
            Some(written) => written@,
            None => "Invalid Time"@,
        },
{
    match clock {
        Some(written) => written,
        None => String::from_str("Invalid Time"),
    }
}

/// A delay in seconds together with the Unix timestamp it applies to.
///
/// A timestamp of 0 stands for "no live data", not for a point in time.
#[derive(Debug, Clone, Copy, PartialEq, Eq, Structural)]
pub struct GTFSTime {
    pub delay: i32,
    pub timestamp: i64,
}

impl GTFSTime {
    /// Whether this time lies strictly before the clock reading `now`.
    pub open spec fn in_past_at(&self, now: i64) -> bool {
        self.timestamp < now
    }

    /// The value that stands for a missing arrival or departure section.
    pub open spec fn absent() -> GTFSTime {
        GTFSTime { delay: 0, timestamp: 0 }
    }

    /// Whether this value is a time at all: its timestamp is not 0.
    pub open spec fn carries_data(&self) -> bool {
        self.timestamp != 0
    }

    /// The value that stands for a missing arrival or departure section.
    pub fn zero() -> (time: GTFSTime)
        ensures
            time == GTFSTime::absent(),
            !time.carries_data(),
    {
        GTFSTime { delay: 0, timestamp: 0 }
    }

    /// Whether this value is a time at all: its timestamp is not 0.
    pub fn has_data(&self) -> (present: bool)
        ensures
            present == self.carries_data(),
    {
        self.timestamp != 0
    }

    /// A copy of this value.
    pub fn clone(&self) -> (copy: GTFSTime)
        ensures
            copy == *self,
    {
        GTFSTime { delay: self.delay, timestamp: self.timestamp }
    }

    /// The time of day of the timestamp in Europe/Berlin as `HH:MM:SS`, and
    /// `Invalid Time` where the calendar does not reach the timestamp.
    pub fn to_string(&self) -> (text: String)
        ensures
            text@ == time_text(berlin_civil(self.timestamp)),
            berlin_civil(self.timestamp) matches Some(time) ==> time.well_formed(),
    {
        describe_time(berlin_clock_at(self.timestamp))
    }

    /// Classifies this time against the clock reading `now`, in Unix seconds.
    pub fn is_in_past_at(&self, now: i64) -> (past: bool)
        ensures
            past == self.in_past_at(now),
    {
        self.timestamp < now
    }

    /// The complement of [`GTFSTime::is_in_past_at`]: a time equal to `now`
    /// counts as future.
    pub fn is_in_future_at(&self, now: i64) -> (future: bool)
        ensures
            future == !self.in_past_at(now),
    {
        !self.is_in_past_at(now)
    }

    /// Reads the clock and says whether this time lies before its reading.
    pub fn is_in_past(&self) -> (past: bool)
        ensures
            exists|now: i64| past == self.in_past_at(now),
    {
        let now = unix_now();
        self.is_in_past_at(now)
    }

    /// Reads the clock and says whether this time does not lie before its
    /// reading.
    pub fn is_in_future(&self) -> (future: bool)
        ensures
            exists|now: i64| future == !self.in_past_at(now),
    {
        let now = unix_now();
        self.is_in_future_at(now)
    }
}

} // verus!
