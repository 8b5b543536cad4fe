//! Moments in UTC, as calendar fields, and the texts they are written as.

use chrono::{Datelike, Timelike};
use vstd::prelude::*;

use crate::text;

verus! {

/// A moment in UTC on the proleptic Gregorian calendar.
///
/// A leap second is the 59th second with a nanosecond of one thousand million or more.
pub struct Civil {
    pub year: int,
    pub month: int,
    pub day: int,
    pub hour: int,
    pub minute: int,
    pub second: int,
    pub nanosecond: int,
}

/// Whether `year` has a 29th of February.
pub open spec fn is_leap(year: int) -> bool {
    year % 4 == 0 && (year % 100 != 0 || year % 400 == 0)
}

/// The number of days of a month.
pub open spec fn month_length(year: int, month: int) -> int {
    if month == 2 {
        if is_leap(year) {
            29
        } else {
            28
        }
    } else if month == 4 || month == 6 || month == 9 || month == 11 {
        30
    } else {
        31
    }
}

/// Whether the fields name a moment that exists and that the calendar covers.
pub open spec fn is_moment(c: Civil) -> bool {
    &&& -262143 <= c.year <= 262142
    &&& 1 <= c.month <= 12
    &&& 1 <= c.day <= month_length(c.year, c.month)
    &&& 0 <= c.hour < 24
    &&& 0 <= c.minute < 60
    &&& 0 <= c.second < 60
    &&& 0 <= c.nanosecond < 2_000_000_000
    &&& c.nanosecond >= 1_000_000_000 ==> c.second == 59
}

/// Two digits.
pub open spec fn two(n: int) -> Seq<char> {
    text::zero_padded(text::decimal(n as nat), 2)
}

/// A year: four digits, with a sign in front where four digits do not hold it.
pub open spec fn year_text(year: int) -> Seq<char> {
    if 0 <= year <= 9999 {
        text::zero_padded(text::decimal(year as nat), 4)
    } else if year < 0 {
        "-"@ + text::zero_padded(text::decimal((-year) as nat), 4)
    } else {
        "+"@ + text::decimal(year as nat)
    }
}

/// The second as a clock shows it: sixty in a leap second.
pub open spec fn shown_second(c: Civil) -> int {
    c.second + c.nanosecond / 1_000_000_000
}

/// The date as `year-month-day`.
pub open spec fn date_text(c: Civil) -> Seq<char> {
    year_text(c.year) + "-"@ + two(c.month) + "-"@ + two(c.day)
}

/// The time of day with `sep` between its parts.
pub open spec fn clock_text(c: Civil, sep: Seq<char>) -> Seq<char> {
    two(c.hour) + sep + two(c.minute) + sep + two(shown_second(c))
}

/// The part of a second in as few of three, six and nine digits as hold it, or nothing.
pub open spec fn fraction_text(c: Civil) -> Seq<char> {
    let n = c.nanosecond % 1_000_000_000;
    if n == 0 {
        Seq::empty()
    } else if n % 1_000_000 == 0 {
        "."@ + text::zero_padded(text::decimal((n / 1_000_000) as nat), 3)
    } else if n % 1_000 == 0 {
        "."@ + text::zero_padded(text::decimal((n / 1_000) as nat), 6)
    } else {
        "."@ + text::zero_padded(text::decimal(n as nat), 9)
    }
}

/// A moment as RFC 3339 writes it, with `Z` or `+00:00` for the offset.
pub open spec fn rfc3339_text(c: Civil, zulu: bool) -> Seq<char> {
    date_text(c) + "T"@ + clock_text(c, ":"@) + fraction_text(c) + if zulu {
        "Z"@
    } else {
        "+00:00"@
    }
}

/// A moment as part of a file name: no colons, always three digits of the second's fraction.
pub open spec fn file_stamp_text(c: Civil) -> Seq<char> {
    date_text(c) + "T"@ + clock_text(c, "_"@) + "."@ + text::zero_padded(
        text::decimal((c.nanosecond / 1_000_000 % 1000) as nat),
        3,
    ) + "Z"@
}

/// A moment as the heading of a table.
pub open spec fn heading_stamp_text(c: Civil) -> Seq<char> {
    date_text(c) + " "@ + clock_text(c, ":"@) + " UTC"@
}

/// The pattern that `chrono` writes file stamps from.
pub open spec fn file_pattern() -> Seq<char> {
    "%Y-%m-%dT%H_%M_%S%.3fZ"@
}

/// The pattern that `chrono` writes table headings from.
pub open spec fn heading_pattern() -> Seq<char> {
    "%Y-%m-%d %H:%M:%S UTC"@
}

/// A moment in UTC.
#[derive(Debug, Clone, Copy, PartialEq, Eq)]
pub struct Timestamp {
    year: i32,
    month: u32,
    day: u32,
    hour: u32,
    minute: u32,
    second: u32,
    nanosecond: u32,
}

impl View for Timestamp {
    type V = Civil;

    closed spec fn view(&self) -> Civil {
        Civil {
            year: self.year as int,
            month: self.month as int,
            day: self.day as int,
            hour: self.hour as int,
            minute: self.minute as int,
            second: self.second as int,
            nanosecond: self.nanosecond as int,
        }
    }
}

/// The current time, by `chrono::Utc::now`.
///
/// Nothing is claimed of which moment it is, only that it is one.
#[verifier::external_body]
fn utc_now() -> (r: Timestamp)
    ensures
        is_moment(r@),
{
    let t = chrono::Utc::now();
    Timestamp {
        year: t.year(),
        month: t.month(),
        day: t.day(),
        hour: t.hour(),
        minute: t.minute(),
        second: t.second(),
        nanosecond: t.nanosecond(),
    }
}

/// `t` written from `pattern`, by `chrono::DateTime::format`.
///
/// Claims what the two patterns come to: zero-padded fields with the pattern's own characters
/// between them, `%.3f` a point and the milliseconds, `%S` sixty in a leap second. Other
/// patterns are left out, since `chrono` panics on one that it cannot read.
#[verifier::external_body]
fn formatted(t: &Timestamp, pattern: &str) -> (r: String)
    requires
        is_moment(t@),
        pattern@ == file_pattern() || pattern@ == heading_pattern(),
    ensures
        pattern@ == file_pattern() ==> r@ == file_stamp_text(t@),
        pattern@ == heading_pattern() ==> r@ == heading_stamp_text(t@),
{
    chrono::NaiveDate::from_ymd_opt(t.year, t.month, t.day)
        .and_then(|d| d.and_hms_nano_opt(t.hour, t.minute, t.second, t.nanosecond))
        .unwrap()
        .and_utc()
        .format(pattern)
        .to_string()
}

/// `t` by `chrono::DateTime::to_rfc3339_opts`, with as many digits of the second's fraction as
/// hold it and, where `zulu` says so, `Z` for the offset.
#[verifier::external_body]
fn rfc3339(t: &Timestamp, zulu: bool) -> (r: String)
    requires
        is_moment(t@),
    ensures
        r@ == rfc3339_text(t@, zulu),
{
    chrono::NaiveDate::from_ymd_opt(t.year, t.month, t.day)
        .and_then(|d| d.and_hms_nano_opt(t.hour, t.minute, t.second, t.nanosecond))
        .unwrap()
        .and_utc()
        .to_rfc3339_opts(chrono::SecondsFormat::AutoSi, zulu)
}

impl Timestamp {
    #[verifier::type_invariant]
    spec fn exists_on_the_calendar(self) -> bool {
        is_moment(self@)
    }

    /// The moment with these fields, where there is one.
    pub fn new(
        year: i32,
        month: u32,
        day: u32,
        hour: u32,
        minute: u32,
        second: u32,
        nanosecond: u32,
    ) -> (r: Option<Timestamp>)
        ensures
            ({
                let c = Civil {
                    year: year as int,
                    month: month as int,
                    day: day as int,
                    hour: hour as int,
                    minute: minute as int,
                    second: second as int,
                    nanosecond: nanosecond as int,
                };
                if is_moment(c) {
                    r is Some && r->0@ == c
                } else {
                    r is None
                }
            }),
    {
        if year < -262143 || year > 262142 || month < 1 || month > 12 || day < 1 {
            return None;
        }
        // A whole number of 400-year cycles makes the year positive.
        let shifted: i32 = year + 400_000;
        let leap: bool = shifted % 4 == 0 && (shifted % 100 != 0 || shifted % 400 == 0);
        let length: u32 = if month == 2 {
            if leap {
                29
            } else {
                28
            }
        } else if month == 4 || month == 6 || month == 9 || month == 11 {
            30
        } else {
            31
        };
        if day > length || hour >= 24 || minute >= 60 || second >= 60 || nanosecond >= 2_000_000_000
            || (nanosecond >= 1_000_000_000 && second != 59) {
            return None;
        }
        Some(Timestamp { year, month, day, hour, minute, second, nanosecond })
    }

    /// Year, month, day, hour, minute, second and nanosecond.
    pub fn parts(&self) -> (r: (i32, u32, u32, u32, u32, u32, u32))
        ensures
            self@ == (Civil {
                year: r.0 as int,
                month: r.1 as int,
                day: r.2 as int,
                hour: r.3 as int,
                minute: r.4 as int,
                second: r.5 as int,
                nanosecond: r.6 as int,
            }),
    {
        (
            self.year,
            self.month,
            self.day,
            self.hour,
            self.minute,
            self.second,
            self.nanosecond,
        )
    }

    /// The current time.
    pub fn now() -> (r: Timestamp)
        ensures
            is_moment(r@),
    {
        utc_now()
    }

    /// The moment for a file name, without colons.
    pub fn file_stamp(&self) -> (r: String)
        ensures
            r@ == file_stamp_text(self@),
    {
        proof {
            use_type_invariant(self);
        }
        formatted(self, "%Y-%m-%dT%H_%M_%S%.3fZ")
    }

    /// The moment for the heading of a table.
    pub fn heading_stamp(&self) -> (r: String)
        ensures
            r@ == heading_stamp_text(self@),
    {
        proof {
            use_type_invariant(self);
        }
        formatted(self, "%Y-%m-%d %H:%M:%S UTC")
    }

    /// The moment in RFC 3339, with `+00:00` for the offset.
    pub fn to_rfc3339(&self) -> (r: String)
        ensures
            r@ == rfc3339_text(self@, false),
    {
        proof {
            use_type_invariant(self);
        }
        rfc3339(self, false)
    }

    /// The moment in RFC 3339, with `Z` for the offset.
    pub fn to_rfc3339_zulu(&self) -> (r: String)
        ensures
            r@ == rfc3339_text(self@, true),
    {
        proof {
            use_type_invariant(self);
        }
        rfc3339(self, true)
    }
}

// ---------------------------------------------------------------------------
// Laws
// ---------------------------------------------------------------------------

/// A moment is one that the calendar has: February has 29 days in the years that four divides,
/// save those that a hundred but not four hundred divides; a leap second ends a minute; and what
/// is given for a moment is what comes back of it.
pub proof fn moments_are_on_the_calendar(
    year: i32,
    month: u32,
    day: u32,
    hour: u32,
    minute: u32,
    second: u32,
    nanosecond: u32,
    r: Option<Timestamp>,
    parts: (i32, u32, u32, u32, u32, u32, u32),
)
    requires
        call_ensures(Timestamp::new, (year, month, day, hour, minute, second, nanosecond), r),
        r is Some ==> call_ensures(Timestamp::parts, (&r->0,), parts),
    ensures
        r is Some <==> {
            let leap = year as int % 400 == 0 || (year as int % 4 == 0 && year as int % 100 != 0);
            &&& -262143 <= year <= 262142
            &&& 1 <= month <= 12
            &&& 1 <= day <= 31
            &&& day == 31 ==> month != 2 && month != 4 && month != 6 && month != 9 && month != 11
            &&& day == 30 ==> month != 2
            &&& day == 29 && month == 2 ==> leap
            &&& hour <= 23
            &&& minute <= 59
            &&& second <= 59
            &&& nanosecond < 1_000_000_000 || (second == 59 && nanosecond < 2_000_000_000)
        },
        r is Some ==> parts == (year, month, day, hour, minute, second, nanosecond),
{
}

} // verus!
