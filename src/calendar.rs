use chrono::Datelike;
use vstd::prelude::*;

verus! {

/// The latest second (UTC) that a stored timestamp may hold: 9999-12-31T23:59:59Z.
pub const MAX_TIMESTAMP: i64 = 253402300799;

pub open spec fn is_leap_year(y: int) -> bool {
    (y % 4 == 0 && y % 100 != 0) || y % 400 == 0
}

pub open spec fn days_in_month(y: int, m: int) -> int {
    if m == 2 {
        if is_leap_year(y) { 29 } else { 28 }
    } else if m == 4 || m == 6 || m == 9 || m == 11 {
        30
    } else {
        31
    }
}

/// A day of the proleptic Gregorian calendar.
pub open spec fn is_calendar_date(y: int, m: int, d: int) -> bool {
    1 <= m <= 12 && 1 <= d <= days_in_month(y, m)
}

/// The decimal digit for `n`, from 0 to 9.
pub open spec fn digit(n: int) -> char {
    if n == 0 { '0' } else if n == 1 { '1' } else if n == 2 { '2' } else if n == 3 { '3' }
    else if n == 4 { '4' } else if n == 5 { '5' } else if n == 6 { '6' } else if n == 7 { '7' }
    else if n == 8 { '8' } else { '9' }
}

/// A date written `YYYY-MM-DD`: four digits of year, two of month, two of day.
pub open spec fn ymd_text(y: int, m: int, d: int) -> Seq<char> {
    seq![
        digit(y / 1000), digit((y / 100) % 10), digit((y / 10) % 10), digit(y % 10), '-',
        digit(m / 10), digit(m % 10), '-', digit(d / 10), digit(d % 10),
    ]
}

/// What `NaiveDate::parse_from_str(s, "%Y-%m-%d")` reads from `s`, as year, month and day.
pub uninterp spec fn parsed_ymd(s: Seq<char>) -> Option<(i32, u32, u32)>;

/// What `DateTime::parse_from_rfc3339(s)` reads from `s`, as seconds since the Unix epoch.
pub uninterp spec fn rfc3339_secs(s: Seq<char>) -> Option<i64>;

/// Relies on chrono's `NaiveDate::parse_from_str` with the pattern `%Y-%m-%d`:
/// a date that it returns is a valid calendar date.
#[verifier::external_body]
fn parse_ymd(s: &str) -> (r: Option<(i32, u32, u32)>)
    ensures
        r == parsed_ymd(s@),
        r matches Some(t) ==> is_calendar_date(t.0 as int, t.1 as int, t.2 as int),
{
    match chrono::NaiveDate::parse_from_str(s, "%Y-%m-%d") {
        Ok(d) => Some((d.year(), d.month(), d.day())),
        Err(_) => None,
    }
}

/// Relies on chrono's `NaiveDate::format` with the pattern `%Y-%m-%d`: the year
/// zero-padded to four digits, month and day to two, which `parse_from_str` with the
/// same pattern reads back as the same date.
#[verifier::external_body]
fn format_ymd(y: i32, m: u32, d: u32) -> (r: String)
    requires
        1 <= y <= 9999,
        is_calendar_date(y as int, m as int, d as int),
    ensures
        r@ == ymd_text(y as int, m as int, d as int),
        parsed_ymd(r@) == Some((y, m, d)),
{
    match chrono::NaiveDate::from_ymd_opt(y, m, d) {
        Some(date) => date.format("%Y-%m-%d").to_string(),
        None => String::new(),
    }
}

/// Relies on chrono's `DateTime::parse_from_rfc3339`, read as the instant it names.
#[verifier::external_body]
fn parse_rfc3339(s: &str) -> (r: Option<i64>)
    ensures
        r == rfc3339_secs(s@),
{
    match chrono::DateTime::parse_from_rfc3339(s) {
        Ok(t) => Some(t.timestamp()),
        Err(_) => None,
    }
}

/// Relies on chrono's `DateTime::from_timestamp` and `to_rfc3339`: the instant is
/// written in UTC with the offset `+00:00`, which `parse_from_rfc3339` reads back as
/// the same instant. `from_timestamp` accepts every second from 1970 to the year 9999.
#[verifier::external_body]
fn format_rfc3339(secs: i64) -> (r: String)
    requires
        0 <= secs <= MAX_TIMESTAMP,
    ensures
        rfc3339_secs(r@) == Some(secs),
{
    match chrono::DateTime::from_timestamp(secs, 0) {
        Some(t) => t.to_rfc3339(),
        None => String::new(),
    }
}

/// Relies on std's `SystemTime::duration_since` from the Unix epoch: the seconds since
/// then, or nothing where the clock reads an earlier instant.
#[verifier::external_body]
fn clock_secs() -> (r: Option<u64>) {
    std::time::SystemTime::now().duration_since(std::time::UNIX_EPOCH).ok().map(|d| d.as_secs())
}

/// A calendar date with a four-digit year.
#[derive(Clone, Copy, Debug, PartialEq, Eq, Structural)]
pub struct Date {
    pub year: i32,
    pub month: u32,
    pub day: u32,
}

impl Date {
    pub open spec fn wf(self) -> bool {
        1 <= self.year <= 9999 && is_calendar_date(self.year as int, self.month as int, self.day as int)
    }

    /// The date as one number that orders dates as the calendar does.
    pub open spec fn key(self) -> int {
        self.year * 10000 + self.month * 100 + self.day
    }

    /// The date that `text` names in the form `YYYY-MM-DD`, if it names one in the years 1 to 9999.
    pub fn parse(text: &str) -> (r: Option<Date>)
        ensures
            r == date_of(text@),
            r matches Some(d) ==> d.wf(),
    {
        match parse_ymd(text) {
            Some((y, m, d)) => {
                if 1 <= y && y <= 9999 {
                    Some(Date { year: y, month: m, day: d })
                } else {
                    None
                }
            },
            None => None,
        }
    }

    /// The date written as `YYYY-MM-DD`.
    pub fn format(&self) -> (r: String)
        requires
            self.wf(),
        ensures
            r@ == ymd_text(self.year as int, self.month as int, self.day as int),
            date_of(r@) == Some(*self),
    {
        format_ymd(self.year, self.month, self.day)
    }

    /// `key`, computed.
    pub fn ordinal(&self) -> (r: i64)
        requires
            self.wf(),
        ensures
            r == self.key(),
    {
        self.year as i64 * 10000 + self.month as i64 * 100 + self.day as i64
    }
}

/// The date that a text in the form `YYYY-MM-DD` names, as `Date::parse` reads it.
pub open spec fn date_of(s: Seq<char>) -> Option<Date> {
    match parsed_ymd(s) {
        Some(t) => if 1 <= t.0 <= 9999 {
            Some(Date { year: t.0, month: t.1, day: t.2 })
        } else {
            None
        },
        None => None,
    }
}

/// An instant, in whole seconds since the Unix epoch, up to the end of the year 9999.
#[derive(Clone, Copy, Debug, PartialEq, Eq, Structural)]
pub struct Timestamp {
    pub secs: i64,
}

impl Timestamp {
    pub open spec fn wf(self) -> bool {
        0 <= self.secs <= MAX_TIMESTAMP
    }

    pub fn from_secs(secs: i64) -> (r: Option<Timestamp>)
        ensures
            r == timestamp_of_secs(secs),
    {
        if 0 <= secs && secs <= MAX_TIMESTAMP {
            Some(Timestamp { secs })
        } else {
            None
        }
    }

    /// The current instant, where the clock reads one in range.
    pub fn now() -> (r: Option<Timestamp>)
        ensures
            r matches Some(t) ==> t.wf(),
    {
        match clock_secs() {
            Some(secs) => {
                if secs <= MAX_TIMESTAMP as u64 {
                    Some(Timestamp { secs: secs as i64 })
                } else {
                    None
                }
            },
            None => None,
        }
    }

    /// The instant that an RFC 3339 text names, where it names one in range.
    pub fn parse(text: &str) -> (r: Option<Timestamp>)
        ensures
            r == timestamp_of(text@),
    {
        match parse_rfc3339(text) {
            Some(secs) => Timestamp::from_secs(secs),
            None => None,
        }
    }

    /// The instant written in RFC 3339 form, in UTC.
    pub fn format(&self) -> (r: String)
        requires
            self.wf(),
        ensures
            timestamp_of(r@) == Some(*self),
    {
        format_rfc3339(self.secs)
    }
}

pub open spec fn timestamp_of_secs(secs: i64) -> Option<Timestamp> {
    if 0 <= secs <= MAX_TIMESTAMP {
        Some(Timestamp { secs })
    } else {
        None
    }
}

/// The instant that an RFC 3339 text names, as `Timestamp::parse` reads it.
pub open spec fn timestamp_of(s: Seq<char>) -> Option<Timestamp> {
    match rfc3339_secs(s) {
        Some(secs) => timestamp_of_secs(secs),
        None => None,
    }
}

} // verus!
