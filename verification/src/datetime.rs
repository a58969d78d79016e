//! Dates and times for scripts: moments as Unix timestamps, and their
//! calendar values in UTC or local time.
//!
//! The calendar itself is `chrono`'s. What it computes from plain values is
//! named; what depends on the machine's time zone or clock is stated only as
//! far as it holds of every outcome.

use vstd::prelude::*;

use chrono::{Datelike, TimeZone, Timelike};

verus! {

/// A month of the year.
#[derive(Debug, Clone, Copy, PartialEq, Eq, Structural)]
pub enum Month {
    January,
    February,
    March,
    April,
    May,
    June,
    July,
    August,
    September,
    October,
    November,
    December,
}

/// The number of a month, from 1 for January.
pub open spec fn month_number(m: Month) -> u32 {
    match m {
        Month::January => 1,
        Month::February => 2,
        Month::March => 3,
        Month::April => 4,
        Month::May => 5,
        Month::June => 6,
        Month::July => 7,
        Month::August => 8,
        Month::September => 9,
        Month::October => 10,
        Month::November => 11,
        Month::December => 12,
    }
}

impl Month {
    /// The month with a number from 1 to 12.
    pub fn from_number(n: u32) -> (r: Option<Month>)
        ensures
            match r {
                Some(m) => month_number(m) == n,
                None => !(1 <= n <= 12),
            },
    {
        match n {
            1 => Some(Month::January),
            2 => Some(Month::February),
            3 => Some(Month::March),
            4 => Some(Month::April),
            5 => Some(Month::May),
            6 => Some(Month::June),
            7 => Some(Month::July),
            8 => Some(Month::August),
            9 => Some(Month::September),
            10 => Some(Month::October),
            11 => Some(Month::November),
            12 => Some(Month::December),
            _ => None,
        }
    }

    /// The number of the month, from 1 for January.
    pub fn number(&self) -> (r: u32)
        ensures
            r == month_number(*self),
    {
        match self {
            Month::January => 1,
            Month::February => 2,
            Month::March => 3,
            Month::April => 4,
            Month::May => 5,
            Month::June => 6,
            Month::July => 7,
            Month::August => 8,
            Month::September => 9,
            Month::October => 10,
            Month::November => 11,
            Month::December => 12,
        }
    }
}

/// The number of the month that a name names: its English name or the
/// first three letters of it, in any ASCII case.
pub open spec fn spec_month_number_from_name(s: Seq<char>) -> Option<u32> {
    let l = crate::text::ascii_lower(s);
    if l == "jan"@ || l == "january"@ {
        Some(1)
    } else if l == "feb"@ || l == "february"@ {
        Some(2)
    } else if l == "mar"@ || l == "march"@ {
        Some(3)
    } else if l == "apr"@ || l == "april"@ {
        Some(4)
    } else if l == "may"@ {
        Some(5)
    } else if l == "jun"@ || l == "june"@ {
        Some(6)
    } else if l == "jul"@ || l == "july"@ {
        Some(7)
    } else if l == "aug"@ || l == "august"@ {
        Some(8)
    } else if l == "sep"@ || l == "september"@ {
        Some(9)
    } else if l == "oct"@ || l == "october"@ {
        Some(10)
    } else if l == "nov"@ || l == "november"@ {
        Some(11)
    } else if l == "dec"@ || l == "december"@ {
        Some(12)
    } else {
        None
    }
}

/// The number of the month that a name names.
///
/// Trusted: parses the name with `FromStr` of `chrono::Month`, whose source
/// reads the first three letters of an English month name in any ASCII
/// case, then the rest of that name if it follows (in any ASCII case), and
/// accepts only when nothing is left; `number_from_month` counts from 1
/// for January.
#[verifier::external_body]
fn parse_month_name(s: &str) -> (r: Option<u32>)
    ensures
        r == spec_month_number_from_name(s@),
{
    match s.parse::<chrono::Month>() {
        Ok(m) => Some(m.number_from_month()),
        Err(_) => None,
    }
}

/// The `month` field of a table of calendar values.
#[derive(Debug)]
pub enum MonthInput {
    Nil,
    /// A string, by its text.
    String(String),
    /// A float, already converted to `u8` as `as` converts it.
    Number(u8),
    /// An integer.
    Integer(i64),
    /// Any other value.
    Other,
}

/// The month that the `month` field of a table of calendar values gives, or
/// why it gives none: a month name, or a number from 1 to 12 (an integer is
/// first cut to its low byte, as `as u8` does); the field is mandatory.
pub open spec fn spec_month_from_lua(m: MonthInput) -> Result<u32, Seq<char>> {
    match m {
        MonthInput::String(s) => match spec_month_number_from_name(s@) {
            Some(n) => Ok(n),
            None => Err("could not cast month string to Month"@),
        },
        MonthInput::Nil => Err("cannot find mandatory month argument"@),
        MonthInput::Number(n) => if 1 <= n <= 12 {
            Ok(n as u32)
        } else {
            Err("could not cast month number to Month"@)
        },
        MonthInput::Integer(i) => if 1 <= (i as u8) <= 12 {
            Ok((i as u8) as u32)
        } else {
            Err("could not cast month integer to Month"@)
        },
        MonthInput::Other => Err("unexpected month field type"@),
    }
}

impl Month {
    /// Reads the `month` field of a table of calendar values.
    pub fn from_lua(m: &MonthInput) -> (r: Result<Month, String>)
        ensures
            match r {
                Ok(month) => spec_month_from_lua(*m) == Ok::<u32, Seq<char>>(month_number(month)),
                Err(e) => spec_month_from_lua(*m) == Err::<u32, Seq<char>>(e@),
            },
    {
        match m {
            MonthInput::String(s) => match parse_month_name(s.as_str()) {
                Some(n) => match Month::from_number(n) {
                    Some(month) => Ok(month),
                    None => Err("could not cast month string to Month".to_string()),
                },
                None => Err("could not cast month string to Month".to_string()),
            },
            MonthInput::Nil => Err("cannot find mandatory month argument".to_string()),
            MonthInput::Number(n) => match Month::from_number(*n as u32) {
                Some(month) => Ok(month),
                None => Err("could not cast month number to Month".to_string()),
            },
            MonthInput::Integer(i) => {
                let b: u8 = *i as u8;
                match Month::from_number(b as u32) {
                    Some(month) => Ok(month),
                    None => Err("could not cast month integer to Month".to_string()),
                }
            },
            MonthInput::Other => Err("unexpected month field type".to_string()),
        }
    }
}

/// A Luau value that says which unit a timestamp is in.
#[derive(Debug, Clone, Copy, PartialEq, Eq, Structural)]
pub enum TimestampInput {
    /// An integer.
    Integer,
    /// A float, and whether it has no fractional part.
    Number { whole: bool },
    /// Any other value.
    Other,
}

impl TimestampType {
    /// The unit of a timestamp: seconds for an integer or a whole float,
    /// milliseconds for any other float.
    pub fn from_lua(value: TimestampInput) -> (r: Result<Self, String>)
        ensures
            match value {
                TimestampInput::Integer => r == Ok::<TimestampType, String>(TimestampType::Seconds),
                TimestampInput::Number { whole } => r == Ok::<TimestampType, String>(
                    if whole {
                        TimestampType::Seconds
                    } else {
                        TimestampType::Millis
                    },
                ),
                TimestampInput::Other => r matches Err(e) && e@
                    == "Invalid enum type, number or integer expected"@,
            },
    {
        match value {
            TimestampInput::Integer => Ok(TimestampType::Seconds),
            TimestampInput::Number { whole } => Ok(
                if whole {
                    TimestampType::Seconds
                } else {
                    TimestampType::Millis
                },
            ),
            TimestampInput::Other => Err("Invalid enum type, number or integer expected".to_string()),
        }
    }
}

/// The calendar values of a moment.
#[derive(Debug, Clone, Copy, PartialEq, Eq, Structural)]
pub struct DateTimeBuilder {
    pub year: i32,
    pub month: u32,
    pub day: u32,
    pub hour: u32,
    pub minute: u32,
    pub second: u32,
    pub millisecond: u32,
}

impl DateTimeBuilder {
    /// The Unix epoch: 1970-01-01 00:00:00.000.
    pub fn default() -> (r: Self)
        ensures
            r == (DateTimeBuilder {
                year: 1970,
                month: 1,
                day: 1,
                hour: 0,
                minute: 0,
                second: 0,
                millisecond: 0,
            }),
    {
        DateTimeBuilder { year: 1970, month: 1, day: 1, hour: 0, minute: 0, second: 0, millisecond: 0 }
    }

    /// The values with another year.
    pub fn with_year(self, year: i32) -> (r: Self)
        ensures
            r == (DateTimeBuilder { year, ..self }),
    {
        DateTimeBuilder { year, ..self }
    }

    /// The values with another month.
    pub fn with_month(self, month: Month) -> (r: Self)
        ensures
            r == (DateTimeBuilder { month: month_number(month), ..self }),
    {
        DateTimeBuilder { month: month.number(), ..self }
    }

    /// The values with another day.
    pub fn with_day(self, day: u32) -> (r: Self)
        ensures
            r == (DateTimeBuilder { day, ..self }),
    {
        DateTimeBuilder { day, ..self }
    }

    /// The values with another hour.
    pub fn with_hour(self, hour: u32) -> (r: Self)
        ensures
            r == (DateTimeBuilder { hour, ..self }),
    {
        DateTimeBuilder { hour, ..self }
    }

    /// The values with another minute.
    pub fn with_minute(self, minute: u32) -> (r: Self)
        ensures
            r == (DateTimeBuilder { minute, ..self }),
    {
        DateTimeBuilder { minute, ..self }
    }

    /// The values with another second.
    pub fn with_second(self, second: u32) -> (r: Self)
        ensures
            r == (DateTimeBuilder { second, ..self }),
    {
        DateTimeBuilder { second, ..self }
    }

    /// The values with another millisecond.
    pub fn with_millisecond(self, millisecond: u32) -> (r: Self)
        ensures
            r == (DateTimeBuilder { millisecond, ..self }),
    {
        DateTimeBuilder { millisecond, ..self }
    }

    /// The values, built.
    pub fn build(self) -> (r: Self)
        ensures
            r == self,
    {
        self
    }
}

/// The kinds of time zone that calendar values can be read in.
#[derive(Debug, Clone, Copy, PartialEq, Eq, Structural)]
pub enum Timezone {
    Utc,
    Local,
}

/// The text that `str::to_lowercase` gives for a text.
pub uninterp spec fn spec_to_lowercase(s: Seq<char>) -> Seq<char>;

/// The text in lowercase.
///
/// Trusted: calls `str::to_lowercase`, which maps each character by its
/// Unicode lowercase mapping and depends on the text alone (named by
/// `spec_to_lowercase`).
#[verifier::external_body]
fn to_lowercase(s: &str) -> (r: String)
    ensures
        r@ == spec_to_lowercase(s@),
{
    s.to_lowercase()
}

/// A Luau value that names a time zone.
#[derive(Debug)]
pub enum TimezoneInput {
    /// A string, by its text.
    String(String),
    /// Any other value.
    Other,
}

/// The time zone that a value names, or why it names none: a string whose
/// lowercase is `utc` or `local`.
pub open spec fn spec_timezone_from_lua(v: TimezoneInput) -> Result<Timezone, Seq<char>> {
    match v {
        TimezoneInput::String(s) => {
            let l = spec_to_lowercase(s@);
            if l == "utc"@ {
                Ok(Timezone::Utc)
            } else if l == "local"@ {
                Ok(Timezone::Local)
            } else {
                Err("Invalid enum member!"@)
            }
        },
        TimezoneInput::Other => Err("Invalid enum type, string expected"@),
    }
}

impl Timezone {
    /// Reads a time zone from a Luau value.
    pub fn from_lua(value: &TimezoneInput) -> (r: Result<Self, String>)
        ensures
            match r {
                Ok(t) => spec_timezone_from_lua(*value) == Ok::<Timezone, Seq<char>>(t),
                Err(e) => spec_timezone_from_lua(*value) == Err::<Timezone, Seq<char>>(e@),
            },
    {
        match value {
            TimezoneInput::String(s) => {
                let l = to_lowercase(s.as_str());
                let c = crate::text::str_chars(l.as_str());
                if crate::text::chars_eq_str(c.as_slice(), "utc") {
                    Ok(Timezone::Utc)
                } else if crate::text::chars_eq_str(c.as_slice(), "local") {
                    Ok(Timezone::Local)
                } else {
                    Err("Invalid enum member!".to_string())
                }
            },
            TimezoneInput::Other => Err("Invalid enum type, string expected".to_string()),
        }
    }
}

/// The units of a Unix timestamp.
#[derive(Debug, Clone, Copy, PartialEq, Eq, Structural)]
pub enum TimestampType {
    Seconds,
    Millis,
}

/// A moment: seconds and milliseconds since the Unix epoch.
#[derive(Debug, Clone, Copy, PartialEq, Eq, Structural)]
pub struct DateTime {
    pub unix_timestamp: i64,
    pub unix_timestamp_millis: i64,
}

/// Whether a moment's seconds are its milliseconds rounded down.
pub open spec fn consistent(d: DateTime) -> bool {
    d.unix_timestamp as int == (d.unix_timestamp_millis as int) / 1000
}

/// Whether `chrono` can represent a moment this many seconds from the
/// epoch: its dates run from -262143-01-01 to +262142-12-31, so the first
/// and last seconds are those of these two days.
pub open spec fn spec_secs_in_range(secs: i64) -> bool {
    -8_334_601_228_800 <= secs <= 8_210_266_876_799
}

/// Whether `chrono` can represent a moment this many milliseconds from the
/// epoch: the milliseconds of the seconds in `spec_secs_in_range`.
pub open spec fn spec_millis_in_range(millis: i64) -> bool {
    -8_334_601_228_800_000 <= millis <= 8_210_266_876_799_999
}

/// Whether a year of the proleptic Gregorian calendar is a leap year.
pub open spec fn is_leap_year(y: int) -> bool {
    y % 4 == 0 && (y % 100 != 0 || y % 400 == 0)
}

/// The number of days in a month of a year.
pub open spec fn days_in_month(y: int, m: int) -> int {
    if m == 2 {
        if is_leap_year(y) {
            29
        } else {
            28
        }
    } else if m == 4 || m == 6 || m == 9 || m == 11 {
        30
    } else {
        31
    }
}

/// The days from 1970-01-01 to a date of the proleptic Gregorian calendar,
/// counted in eras of 400 years that start on the first of March.
pub open spec fn days_from_epoch(y: int, m: int, d: int) -> int {
    let yy = if m <= 2 {
        y - 1
    } else {
        y
    };
    let era = yy / 400;
    let yoe = yy - era * 400;
    let mp = if m > 2 {
        m - 3
    } else {
        m + 9
    };
    let doy = (153 * mp + 2) / 5 + d - 1;
    let doe = yoe * 365 + yoe / 4 - yoe / 100 + doy;
    era * 146097 + doe - 719468
}

/// The seconds from the epoch to midnight UTC of a date, if the date exists
/// and lies within `chrono`'s dates, -262143-01-01 to +262142-12-31.
pub open spec fn spec_utc_midnight(year: i32, month: u32, day: u32) -> Option<int> {
    if -262143 <= year <= 262142 && 1 <= month <= 12 && 1 <= day <= days_in_month(
        year as int,
        month as int,
    ) {
        Some(days_from_epoch(year as int, month as int, day as int) * 86400)
    } else {
        None
    }
}

/// The UTC calendar values of a moment this many seconds from the epoch:
/// year, month, day, hour, minute, second.
pub uninterp spec fn spec_utc_parts(secs: i64) -> Option<(i32, u32, u32, u32, u32, u32)>;

/// The seconds from the epoch of the UTC moment that a text gives in a
/// format, if it parses.
pub uninterp spec fn spec_parse_moment(text: Seq<char>, format: Seq<char>) -> Option<int>;

/// The current moment.
///
/// Trusted: calls `chrono::Utc::now`; its `timestamp` and `timestamp_millis`
/// read the same moment, in seconds and in milliseconds. What moment it is
/// depends on the clock and is not stated; `chrono` panics when the system
/// clock reads a time before 1970, which no argument can rule out.
#[verifier::external_body]
fn utc_now() -> (r: DateTime)
    ensures
        consistent(r),
{
    let t = chrono::Utc::now();
    DateTime { unix_timestamp: t.timestamp(), unix_timestamp_millis: t.timestamp_millis() }
}

/// The moment a number of seconds from the epoch, if `chrono` can
/// represent it.
///
/// Trusted: calls `NaiveDateTime::from_timestamp_opt`, which fails only out
/// of its range (`spec_secs_in_range`) and otherwise gives back the
/// seconds it was made from.
#[verifier::external_body]
#[allow(deprecated)]
fn moment_from_secs(secs: i64) -> (r: Option<DateTime>)
    ensures
        r is Some <==> spec_secs_in_range(secs),
        r matches Some(d) ==> d.unix_timestamp == secs && d.unix_timestamp_millis == secs * 1000,
{
    match chrono::NaiveDateTime::from_timestamp_opt(secs, 0) {
        Some(t) => Some(
            DateTime {
                unix_timestamp: t.and_utc().timestamp(),
                unix_timestamp_millis: t.and_utc().timestamp_millis(),
            },
        ),
        None => None,
    }
}

/// The moment a number of milliseconds from the epoch, if `chrono` can
/// represent it.
///
/// Trusted: calls `NaiveDateTime::from_timestamp_millis`, which fails only
/// out of its range (`spec_millis_in_range`) and otherwise gives
/// back the milliseconds it was made from, and the seconds rounded down.
#[verifier::external_body]
#[allow(deprecated)]
fn moment_from_millis(millis: i64) -> (r: Option<DateTime>)
    ensures
        r is Some <==> spec_millis_in_range(millis),
        r matches Some(d) ==> d.unix_timestamp_millis == millis && consistent(d),
{
    match chrono::NaiveDateTime::from_timestamp_millis(millis) {
        Some(t) => Some(
            DateTime {
                unix_timestamp: t.and_utc().timestamp(),
                unix_timestamp_millis: t.and_utc().timestamp_millis(),
            },
        ),
        None => None,
    }
}

/// The seconds from the epoch to midnight UTC of a date.
///
/// Trusted: calls `NaiveDate::from_ymd_opt`, which fails on dates that do
/// not exist and on years outside -262143 to 262142 (`MIN_YEAR` and
/// `MAX_YEAR` in its source); the midnight of a valid date is read with
/// `timestamp`, which counts the days of the proleptic Gregorian calendar
/// from 1970-01-01 (`spec_utc_midnight`).
#[verifier::external_body]
fn utc_midnight(year: i32, month: u32, day: u32) -> (r: Option<i64>)
    ensures
        match r {
            Some(s) => spec_utc_midnight(year, month, day) == Some(s as int),
            None => spec_utc_midnight(year, month, day) is None,
        },
{
    match chrono::NaiveDate::from_ymd_opt(year, month, day) {
        Some(date) => Some(chrono::NaiveDateTime::new(date, chrono::NaiveTime::MIN).and_utc().timestamp()),
        None => None,
    }
}

/// The UTC calendar values of a moment.
///
/// Trusted: calls `Utc.timestamp_opt` and reads the year, month, day, hour,
/// minute and second (named by `spec_utc_parts`); `chrono` documents the
/// month and day as counted from 1, and a whole second has no leap second.
/// The date read is one that exists, and since `chrono` counts timestamps
/// in non-leap seconds from the epoch, the moment is its date's midnight
/// plus the seconds of its time of day.
#[verifier::external_body]
fn utc_parts(secs: i64) -> (r: Option<(i32, u32, u32, u32, u32, u32)>)
    ensures
        r == spec_utc_parts(secs),
        r matches Some(p) ==> 1 <= p.1 <= 12 && 1 <= p.2 <= 31 && p.3 < 24 && p.4 < 60 && p.5
            < 60,
        r matches Some(p) ==> spec_utc_midnight(p.0, p.1, p.2) == Some(
            secs - (p.3 * 3600 + p.4 * 60 + p.5),
        ),
{
    match chrono::Utc.timestamp_opt(secs, 0).single() {
        Some(t) => Some((t.year(), t.month(), t.day(), t.hour(), t.minute(), t.second())),
        None => None,
    }
}

/// The local calendar values of a moment.
///
/// Trusted: calls `Local.timestamp_opt` and reads the year, month, day,
/// hour, minute and second. The values depend on the machine's time zone
/// and are not named; `chrono` documents the month and day as counted from
/// 1, and a whole second has no leap second. Its source gives a single
/// local time exactly when `DateTime::from_timestamp` can represent the
/// moment, which is the range of `NaiveDateTime::from_timestamp_opt`
/// (`spec_secs_in_range`): a moment has one offset. `chrono` panics when
/// the machine's time zone data is malformed, which no argument can rule
/// out.
#[verifier::external_body]
fn local_parts(secs: i64) -> (r: Option<(i32, u32, u32, u32, u32, u32)>)
    ensures
        r is Some <==> spec_secs_in_range(secs),
        r matches Some(p) ==> 1 <= p.1 <= 12 && 1 <= p.2 <= 31 && p.3 < 24 && p.4 < 60 && p.5
            < 60,
{
    match chrono::Local.timestamp_opt(secs, 0).single() {
        Some(t) => Some((t.year(), t.month(), t.day(), t.hour(), t.minute(), t.second())),
        None => None,
    }
}

/// The seconds from the epoch of a local wall-clock time, given as seconds
/// from the local epoch, if it names exactly one moment.
///
/// Trusted: calls `Local.from_local_datetime(..).single()`. Whether there
/// is an answer, and which, depends on the machine's time zone and is not
/// named. Its source subtracts a `FixedOffset`, which `FixedOffset::east_opt`
/// keeps strictly within a day, from the local time, so an answer lies
/// less than a day away from the local seconds.
#[verifier::external_body]
#[allow(deprecated)]
fn local_to_utc_secs(local_secs: i64) -> (r: Option<i64>)
    ensures
        r matches Some(s) ==> local_secs - 86400 < s < local_secs + 86400,
{
    match chrono::NaiveDateTime::from_timestamp_opt(local_secs, 0) {
        Some(naive) => match chrono::Local.from_local_datetime(&naive).single() {
            Some(t) => Some(t.timestamp()),
            None => None,
        },
        None => None,
    }
}

/// The moment that a text gives in a format, with its offset.
///
/// Trusted: calls `chrono::DateTime::parse_from_str`, whose result depends
/// on the text and the format alone (named by `spec_parse_moment`).
#[verifier::external_body]
fn parse_moment(text: &str, format: &str) -> (r: Option<i64>)
    ensures
        match r {
            Some(s) => spec_parse_moment(text@, format@) == Some(s as int),
            None => spec_parse_moment(text@, format@) is None,
        },
{
    match chrono::DateTime::parse_from_str(text, format) {
        Ok(t) => Some(t.timestamp()),
        Err(_) => None,
    }
}

/// Seconds and milliseconds of the moment a number of milliseconds from
/// the epoch.
fn from_millis_exact(millis: i64) -> (r: DateTime)
    ensures
        r.unix_timestamp_millis == millis,
        consistent(r),
{
    let shifted: i128 = (millis as i128) + 10_000_000_000_000_000_000i128;
    let q: i128 = shifted / 1000;
    let secs_wide: i128 = q - 10_000_000_000_000_000i128;
    proof {
        let x = (millis as int) / 1000;
        let b = (millis as int) % 1000;
        vstd::arithmetic::div_mod::lemma_fundamental_div_mod(millis as int, 1000);
        assert(shifted == 1000 * (x + 10_000_000_000_000_000int) + b);
        vstd::arithmetic::div_mod::lemma_div_multiples_vanish_fancy(
            x + 10_000_000_000_000_000int,
            b,
            1000,
        );
    }
    assert(secs_wide == (millis as int) / 1000);
    let secs: i64 = secs_wide as i64;
    DateTime { unix_timestamp: secs, unix_timestamp_millis: millis }
}

/// The milliseconds within its second of a moment given in milliseconds,
/// from 0 to 999.
fn millis_within_second(millis: i64) -> (r: u32)
    ensures
        r == millis % 1000,
{
    let shifted: u128 = ((millis as i128) + 10_000_000_000_000_000_000i128) as u128;
    let r: u128 = shifted % 1000;
    proof {
        vstd::arithmetic::div_mod::lemma_mod_multiples_vanish(
            10_000_000_000_000_000int,
            millis as int,
            1000,
        );
    }
    r as u32
}

/// The milliseconds of the moment that a local time names: the UTC seconds
/// that the time zone gives for its whole second, with its milliseconds
/// within the second, if the sum is a timestamp in milliseconds.
pub open spec fn spec_local_result(utc_secs: Option<i64>, local_millis: int) -> Option<int> {
    match utc_secs {
        Some(s) => {
            let ms = s * 1000 + local_millis % 1000;
            if i64::MIN <= ms <= i64::MAX {
                Some(ms)
            } else {
                None
            }
        },
        None => None,
    }
}

/// The moment that a local time names, from the UTC seconds that the time
/// zone gave for its whole second (`None` when it names no single moment)
/// and the local time in milliseconds.
pub fn local_result(utc_secs: Option<i64>, local_millis: i64) -> (r: Result<DateTime, ()>)
    ensures
        consistent_result(r),
        match spec_local_result(utc_secs, local_millis as int) {
            Some(ms) => r matches Ok(d) && d.unix_timestamp_millis == ms,
            None => r is Err,
        },
{
    match utc_secs {
        None => Err(()),
        Some(s) => {
            let extra = millis_within_second(local_millis);
            let ms: i128 = (s as i128) * 1000 + (extra as i128);
            if ms < (i64::MIN as i128) || ms > (i64::MAX as i128) {
                return Err(());
            }
            Ok(from_millis_exact(ms as i64))
        },
    }
}

/// The seconds of calendar values counted from midnight, with units
/// outside their usual range rolling over.
pub open spec fn time_of_day_secs(b: DateTimeBuilder) -> int {
    b.hour * 3600 + b.minute * 60 + b.second
}

/// The moment that calendar values name in UTC: the date must exist, and
/// time units outside their usual range roll over (90 minutes is an hour
/// and a half).
pub open spec fn spec_from_universal(b: DateTimeBuilder) -> Option<int> {
    match spec_utc_midnight(b.year, b.month, b.day) {
        Some(m) => Some((m + time_of_day_secs(b)) * 1000 + b.millisecond),
        None => None,
    }
}

impl DateTime {
    /// The current moment.
    pub fn now() -> (r: Self)
        ensures
            consistent(r),
    {
        utc_now()
    }

    /// The moment a number of seconds or milliseconds from the epoch; the
    /// current moment if that is out of range.
    pub fn from_unix_timestamp(kind: TimestampType, timestamp: i64) -> (r: Self)
        ensures
            consistent(r),
            kind == TimestampType::Seconds && spec_secs_in_range(timestamp) ==> r.unix_timestamp
                == timestamp && r.unix_timestamp_millis == timestamp * 1000,
            kind == TimestampType::Millis && spec_millis_in_range(timestamp)
                ==> r.unix_timestamp_millis == timestamp,
    {
        let moment = match kind {
            TimestampType::Seconds => moment_from_secs(timestamp),
            TimestampType::Millis => moment_from_millis(timestamp),
        };
        match moment {
            Some(d) => {
                assert(consistent(d)) by (nonlinear_arith)
                    requires
                        kind == TimestampType::Seconds ==> d.unix_timestamp_millis
                            == d.unix_timestamp * 1000,
                        kind == TimestampType::Millis ==> consistent(d),
                ;
                d
            },
            None => Self::now(),
        }
    }

    /// The moment that UTC calendar values name, or the current moment when
    /// none are given; fails when the date does not exist or the moment is
    /// out of range of a timestamp. Time units outside their usual range
    /// roll over.
    pub fn from_universal_time(values: Option<DateTimeBuilder>) -> (r: Result<Self, ()>)
        ensures
            consistent_result(r),
            values matches Some(b) ==> match r {
                Ok(d) => spec_from_universal(b) == Some(d.unix_timestamp_millis as int),
                Err(_) => spec_from_universal(b) is None || !(i64::MIN <= spec_from_universal(
                    b,
                )->0 <= i64::MAX),
            },
    {
        match values {
            None => Ok(Self::now()),
            Some(b) => match utc_midnight(b.year, b.month, b.day) {
                None => Err(()),
                Some(m) => {
                    let day_secs: i128 = (b.hour as i128) * 3600 + (b.minute as i128) * 60
                        + (b.second as i128);
                    let total: i128 = ((m as i128) + day_secs) * 1000 + (b.millisecond as i128);
                    if total < (i64::MIN as i128) || total > (i64::MAX as i128) {
                        return Err(());
                    }
                    Ok(from_millis_exact(total as i64))
                },
            },
        }
    }

    /// The moment that local calendar values name, or the current moment
    /// when none are given. The values, read as if they were UTC, give the
    /// local time in milliseconds; it fails when the date does not exist or
    /// that is not a timestamp. The time zone then gives the UTC seconds of
    /// the local whole second, less than a day away from it, and
    /// `local_result` adds the milliseconds; it fails when the local time
    /// names no single moment. Time units outside their usual range roll
    /// over.
    pub fn from_local_time(values: Option<DateTimeBuilder>) -> (r: Result<Self, ()>)
        ensures
            consistent_result(r),
            values is None ==> r is Ok,
            values matches Some(b) ==> match spec_from_universal(b) {
                None => r is Err,
                Some(lm) => if !(i64::MIN <= lm <= i64::MAX) {
                    r is Err
                } else {
                    exists|utc: Option<i64>|
                        #![trigger spec_local_result(utc, lm)]
                        (utc matches Some(s) ==> lm / 1000 - 86400 < s < lm / 1000 + 86400)
                            && match spec_local_result(utc, lm) {
                            Some(ms) => r matches Ok(d) && d.unix_timestamp_millis == ms,
                            None => r is Err,
                        }
                },
            },
    {
        match values {
            None => Ok(Self::now()),
            Some(b) => match utc_midnight(b.year, b.month, b.day) {
                None => Err(()),
                Some(m) => {
                    let day_ms: i128 = ((b.hour as i128) * 3600 + (b.minute as i128) * 60
                        + (b.second as i128)) * 1000 + (b.millisecond as i128);
                    let local_ms: i128 = (m as i128) * 1000 + day_ms;
                    assert(spec_from_universal(b) == Some(local_ms as int));
                    if local_ms < (i64::MIN as i128) || local_ms > (i64::MAX as i128) {
                        return Err(());
                    }
                    let local = from_millis_exact(local_ms as i64);
                    let utc = local_to_utc_secs(local.unix_timestamp);
                    let r = local_result(utc, local_ms as i64);
                    assert(spec_local_result(utc, local_ms as int) == spec_local_result(
                        utc,
                        local_ms as int,
                    ));
                    r
                },
            },
        }
    }

    /// The moment that an ISO 8601 date-time in UTC gives, such as
    /// `2020-01-02T10:30:45Z`, if it parses.
    pub fn from_iso_date(iso_date: &str) -> (r: Option<Self>)
        ensures
            match r {
                Some(d) => spec_parse_moment(
                    iso_date@ + "UTC+0000"@,
                    "%Y-%m-%dT%H:%M:%SZUTC%z"@,
                ) == Some(d.unix_timestamp as int) && d.unix_timestamp_millis
                    == d.unix_timestamp * 1000,
                None => spec_parse_moment(iso_date@ + "UTC+0000"@, "%Y-%m-%dT%H:%M:%SZUTC%z"@)
                    is None || !(i64::MIN <= spec_parse_moment(
                    iso_date@ + "UTC+0000"@,
                    "%Y-%m-%dT%H:%M:%SZUTC%z"@,
                )->0 * 1000 <= i64::MAX),
            },
    {
        let mut text = iso_date.to_string();
        text.append("UTC+0000");
        match parse_moment(text.as_str(), "%Y-%m-%dT%H:%M:%SZUTC%z") {
            Some(s) => {
                let ms: i128 = (s as i128) * 1000;
                if ms < (i64::MIN as i128) || ms > (i64::MAX as i128) {
                    return None;
                }
                Some(DateTime { unix_timestamp: s, unix_timestamp_millis: ms as i64 })
            },
            None => None,
        }
    }

    /// The UTC calendar values of the moment, with its milliseconds within
    /// the second. The values name the moment again when given to
    /// `from_universal_time`.
    pub fn to_universal_time(&self) -> (r: Result<DateTimeBuilder, ()>)
        ensures
            consistent(*self) ==> (r matches Ok(b) ==> spec_from_universal(b) == Some(
                self.unix_timestamp_millis as int,
            )),
            match spec_utc_parts(self.unix_timestamp) {
                Some(p) => r == Ok::<DateTimeBuilder, ()>(
                    DateTimeBuilder {
                        year: p.0,
                        month: p.1,
                        day: p.2,
                        hour: p.3,
                        minute: p.4,
                        second: p.5,
                        millisecond: (self.unix_timestamp_millis % 1000) as u32,
                    },
                ),
                None => r is Err,
            },
    {
        let ms = millis_within_second(self.unix_timestamp_millis);
        match utc_parts(self.unix_timestamp) {
            Some(p) => {
                proof {
                    vstd::arithmetic::div_mod::lemma_fundamental_div_mod(
                        self.unix_timestamp_millis as int,
                        1000,
                    );
                }
                match Self::to_datetime_builder(p) {
                    Ok(b) => Ok(b.with_millisecond(ms)),
                    Err(e) => Err(e),
                }
            },
            None => Err(()),
        }
    }

    /// The local calendar values of the moment, with its milliseconds within
    /// the second.
    pub fn to_local_time(&self) -> (r: Result<DateTimeBuilder, ()>)
        ensures
            r is Ok <==> spec_secs_in_range(self.unix_timestamp),
            r matches Ok(b) ==> 1 <= b.month <= 12 && b.millisecond == self.unix_timestamp_millis
                % 1000,
    {
        let ms = millis_within_second(self.unix_timestamp_millis);
        match local_parts(self.unix_timestamp) {
            Some(p) => match Self::to_datetime_builder(p) {
                Ok(b) => Ok(b.with_millisecond(ms)),
                Err(e) => Err(e),
            },
            None => Err(()),
        }
    }

    /// Calendar values from a year, month, day, hour, minute and second,
    /// with milliseconds at 0; fails on a month out of 1 to 12.
    pub fn to_datetime_builder(parts: (i32, u32, u32, u32, u32, u32)) -> (r: Result<
        DateTimeBuilder,
        (),
    >)
        ensures
            1 <= parts.1 <= 12 ==> r == Ok::<DateTimeBuilder, ()>(
                DateTimeBuilder {
                    year: parts.0,
                    month: parts.1,
                    day: parts.2,
                    hour: parts.3,
                    minute: parts.4,
                    second: parts.5,
                    millisecond: 0,
                },
            ),
            !(1 <= parts.1 <= 12) ==> r is Err,
    {
        let month = match Month::from_number(parts.1) {
            Some(m) => m,
            None => {
                return Err(());
            },
        };
        Ok(
            DateTimeBuilder::default().with_year(parts.0).with_month(month).with_day(
                parts.2,
            ).with_hour(parts.3).with_minute(parts.4).with_second(parts.5),
        )
    }
}

/// Whether a result's moment, if any, is consistent.
pub open spec fn consistent_result(r: Result<DateTime, ()>) -> bool {
    r matches Ok(d) ==> consistent(d)
}

/// What formatting calendar values needs: the moment they name in UTC, and
/// the format and locale, with their defaults.
#[derive(Debug)]
pub struct FormatRequest {
    pub unix_timestamp: i64,
    pub timezone: Timezone,
    pub format: String,
    pub locale: String,
}

impl DateTimeBuilder {
    /// What formatting the values needs: the moment they name in UTC, which
    /// needs a valid date and a time within a day; the format, by default
    /// `%Y-%m-%dT%H:%M:%SZUTC+%z`; and the locale, by default `en`.
    pub fn format_request(self, timezone: Timezone, format: Option<String>, locale: Option<String>) -> (r:
        Result<FormatRequest, ()>)
        ensures
            match r {
                Ok(q) => spec_utc_midnight(self.year, self.month, self.day) == Some(
                    q.unix_timestamp - time_of_day_secs(self),
                ) && self.hour < 24 && self.minute < 60 && self.second < 60 && q.timezone
                    == timezone && q.format@ == (match format {
                    Some(f) => f@,
                    None => "%Y-%m-%dT%H:%M:%SZUTC+%z"@,
                }) && q.locale@ == (match locale {
                    Some(l) => l@,
                    None => "en"@,
                }),
                Err(_) => spec_utc_midnight(self.year, self.month, self.day) is None || !(self.hour
                    < 24 && self.minute < 60 && self.second < 60) || !(i64::MIN
                    <= spec_utc_midnight(self.year, self.month, self.day)->0 + time_of_day_secs(
                    self,
                ) <= i64::MAX),
            },
    {
        let format = match format {
            Some(f) => f,
            None => "%Y-%m-%dT%H:%M:%SZUTC+%z".to_string(),
        };
        let locale = match locale {
            Some(l) => l,
            None => "en".to_string(),
        };
        if !(self.hour < 24 && self.minute < 60 && self.second < 60) {
            return Err(());
        }
        match utc_midnight(self.year, self.month, self.day) {
            None => Err(()),
            Some(m) => {
                let t: i128 = (m as i128) + (self.hour as i128) * 3600 + (self.minute as i128) * 60
                    + (self.second as i128);
                if t < (i64::MIN as i128) || t > (i64::MAX as i128) {
                    return Err(());
                }
                Ok(FormatRequest { unix_timestamp: t as i64, timezone, format, locale })
            },
        }
    }
}

} // verus!
