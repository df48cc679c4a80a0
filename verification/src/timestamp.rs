//! Message timestamps: read from the database's text with chrono, and shown
//! to the minute.

use chrono::{Datelike, NaiveDate, NaiveDateTime, Timelike};
use vstd::prelude::*;

use crate::text::{digit_char, digits_of};

verus! {

/// Whether `y` is a leap year of the proleptic Gregorian calendar.
pub open spec fn is_leap_year(y: int) -> bool {
    y % 4 == 0 && (y % 100 != 0 || y % 400 == 0)
}

/// The number of days of month `m` of year `y`.
pub open spec fn days_in_month(y: int, m: int) -> int {
    if m == 2 {
        if is_leap_year(y) {
            29
        } else {
            28
        }
    } else if m == 4 || m == 6 || m == 9 || m == 11 {
        30
    } else {
        31
    }
}

/// Whether the fields name a moment that chrono's `NaiveDateTime` can hold: a
/// day of the calendar in the years chrono supports, and a time of that day
/// to the second.
pub open spec fn is_calendar_time(y: int, mo: int, d: int, h: int, mi: int, s: int) -> bool {
    &&& -262143 <= y <= 262142
    &&& 1 <= mo <= 12
    &&& 1 <= d <= days_in_month(y, mo)
    &&& 0 <= h < 24
    &&& 0 <= mi < 60
    &&& 0 <= s < 60
}

/// What `NaiveDateTime::parse_from_str(s, "%Y-%m-%d %H:%M:%S")` reads from
/// `s`, as year, month, day, hour, minute and second.
pub uninterp spec fn chrono_parsed(s: Seq<char>) -> Option<(i32, u32, u32, u32, u32, u32)>;

/// The decimal digits of `n`, with zeros in front up to four digits.
pub open spec fn zero_pad4(n: nat) -> Seq<char> {
    let d = digits_of(n);
    if d.len() >= 4 {
        d
    } else {
        Seq::new((4 - d.len()) as nat, |i: int| '0') + d
    }
}

/// Two decimal digits of `n`, which is below a hundred.
pub open spec fn two_digits(n: int) -> Seq<char> {
    seq![digit_char((n / 10) as nat), digit_char((n % 10) as nat)]
}

/// What chrono's `%Y` writes: the year zero-padded to four digits, with a
/// sign in front of years outside 0..=9999.
pub open spec fn year_text(y: int) -> Seq<char> {
    if 0 <= y <= 9999 {
        zero_pad4(y as nat)
    } else if y < 0 {
        seq!['-'] + zero_pad4((-y) as nat)
    } else {
        seq!['+'] + zero_pad4(y as nat)
    }
}

/// What chrono writes for a moment with the format `"%Y-%m-%d %H:%M UTC"`:
/// the year, then month, day, hour and minute as two digits each.
pub open spec fn chrono_minute_text(y: int, mo: int, d: int, h: int, mi: int) -> Seq<char> {
    year_text(y) + seq!['-'] + two_digits(mo) + seq!['-'] + two_digits(d) + seq![' '] + two_digits(
        h,
    ) + seq![':'] + two_digits(mi) + " UTC"@
}

/// `NaiveDateTime::parse_from_str(s, "%Y-%m-%d %H:%M:%S")`, its result taken
/// apart into its fields (which chrono keeps on the calendar).
#[verifier::external_body]
fn chrono_parse(s: &str) -> (r: Option<(i32, u32, u32, u32, u32, u32)>)
    ensures
        r == chrono_parsed(s@),
        r matches Some(t) ==> is_calendar_time(
            t.0 as int,
            t.1 as int,
            t.2 as int,
            t.3 as int,
            t.4 as int,
            t.5 as int,
        ),
{
    match NaiveDateTime::parse_from_str(s, "%Y-%m-%d %H:%M:%S") {
        Ok(dt) => Some((dt.year(), dt.month(), dt.day(), dt.hour(), dt.minute(), dt.second())),
        Err(_) => None,
    }
}

/// `NaiveDate::from_ymd_opt(..)?.and_hms_opt(..)?.format("%Y-%m-%d %H:%M UTC")`:
/// the moment written to the minute, as chrono's formatting writes `%Y`
/// (`write_year`) and the two-digit fields (`write_two` with zero padding).
/// Both constructors give `Some` on a calendar time.
#[verifier::external_body]
fn chrono_format_minute(y: i32, mo: u32, d: u32, h: u32, mi: u32, s: u32) -> (t: String)
    requires
        is_calendar_time(y as int, mo as int, d as int, h as int, mi as int, s as int),
    ensures
        t@ == chrono_minute_text(y as int, mo as int, d as int, h as int, mi as int),
{
    NaiveDate::from_ymd_opt(y, mo, d).unwrap().and_hms_opt(h, mi, s).unwrap().format(
        "%Y-%m-%d %H:%M UTC",
    ).to_string()
}

/// `NaiveDate::from_ymd_opt(y, mo, d)`, then `and_hms_opt(h, mi, s)` on the
/// date: whether chrono accepts the fields as a day of its calendar (in the
/// years it supports) and a time of that day to the second.
#[verifier::external_body]
fn chrono_valid(y: i32, mo: u32, d: u32, h: u32, mi: u32, s: u32) -> (b: bool)
    ensures
        b == is_calendar_time(y as int, mo as int, d as int, h as int, mi as int, s as int),
{
    match NaiveDate::from_ymd_opt(y, mo, d) {
        Some(date) => date.and_hms_opt(h, mi, s).is_some(),
        None => false,
    }
}

/// A moment of the calendar, to the second, as a message's creation time.
#[derive(Clone, Copy, Debug, PartialEq, Eq)]
pub struct Timestamp {
    year: i32,
    month: u32,
    day: u32,
    hour: u32,
    minute: u32,
    second: u32,
}

impl Timestamp {
    #[verifier::type_invariant]
    closed spec fn inv(&self) -> bool {
        is_calendar_time(
            self.year as int,
            self.month as int,
            self.day as int,
            self.hour as int,
            self.minute as int,
            self.second as int,
        )
    }

    /// The fields of the moment: year, month, day, hour, minute, second.
    pub closed spec fn fields(&self) -> (i32, u32, u32, u32, u32, u32) {
        (self.year, self.month, self.day, self.hour, self.minute, self.second)
    }

    /// The moment with these fields, when they are a calendar time.
    pub fn new(year: i32, month: u32, day: u32, hour: u32, minute: u32, second: u32) -> (r: Option<
        Timestamp,
    >)
        ensures
            r is Some <==> is_calendar_time(
                year as int,
                month as int,
                day as int,
                hour as int,
                minute as int,
                second as int,
            ),
            r matches Some(t) ==> t.fields() == (year, month, day, hour, minute, second),
    {
        if chrono_valid(year, month, day, hour, minute, second) {
            Some(Timestamp { year, month, day, hour, minute, second })
        } else {
            None
        }
    }

    /// 1970-01-01 00:00:00, what chrono's `NaiveDateTime::default()` is.
    pub fn unix_epoch() -> (t: Timestamp)
        ensures
            t.fields() == (1970i32, 1u32, 1u32, 0u32, 0u32, 0u32),
    {
        Timestamp { year: 1970, month: 1, day: 1, hour: 0, minute: 0, second: 0 }
    }

    /// The year.
    pub fn year(&self) -> (y: i32)
        ensures
            y == self.fields().0,
    {
        self.year
    }

    /// The month, 1 to 12.
    pub fn month(&self) -> (m: u32)
        ensures
            m == self.fields().1,
    {
        self.month
    }

    /// The day of the month, from 1.
    pub fn day(&self) -> (d: u32)
        ensures
            d == self.fields().2,
    {
        self.day
    }

    /// The hour, 0 to 23.
    pub fn hour(&self) -> (h: u32)
        ensures
            h == self.fields().3,
    {
        self.hour
    }

    /// The minute, 0 to 59.
    pub fn minute(&self) -> (m: u32)
        ensures
            m == self.fields().4,
    {
        self.minute
    }

    /// The second, 0 to 59.
    pub fn second(&self) -> (s: u32)
        ensures
            s == self.fields().5,
    {
        self.second
    }

    /// The moment written to the minute, as chrono writes
    /// `"%Y-%m-%d %H:%M UTC"`.
    pub fn format_minute(&self) -> (t: String)
        ensures
            t@ == minute_text(*self),
    {
        proof {
            use_type_invariant(self);
        }
        chrono_format_minute(self.year, self.month, self.day, self.hour, self.minute, self.second)
    }
}

/// The text that shows `t` to the minute.
pub open spec fn minute_text(t: Timestamp) -> Seq<char> {
    let f = t.fields();
    chrono_minute_text(f.0 as int, f.1 as int, f.2 as int, f.3 as int, f.4 as int)
}

/// The moment that `parse_dt` reads: chrono's reading, or the Unix epoch when
/// chrono does not read one.
pub open spec fn parsed_fields(s: Seq<char>) -> (i32, u32, u32, u32, u32, u32) {
    match chrono_parsed(s) {
        Some(f) => f,
        None => (1970i32, 1u32, 1u32, 0u32, 0u32, 0u32),
    }
}

/// The moment chrono read, or the Unix epoch when it read none: what
/// `parse_dt` makes of chrono's answer.
pub fn timestamp_or_epoch(parsed: Option<(i32, u32, u32, u32, u32, u32)>) -> (t: Timestamp)
    requires
        parsed matches Some(f) ==> is_calendar_time(
            f.0 as int,
            f.1 as int,
            f.2 as int,
            f.3 as int,
            f.4 as int,
            f.5 as int,
        ),
    ensures
        t.fields() == (match parsed {
            Some(f) => f,
            None => (1970i32, 1u32, 1u32, 0u32, 0u32, 0u32),
        }),
{
    match parsed {
        Some((year, month, day, hour, minute, second)) => Timestamp {
            year,
            month,
            day,
            hour,
            minute,
            second,
        },
        None => Timestamp::unix_epoch(),
    }
}

/// Reads a `YYYY-MM-DD HH:MM:SS` time as the database stores it; text in
/// another form reads as 1970-01-01 00:00:00.
pub fn parse_dt(s: &str) -> (t: Timestamp)
    ensures
        t.fields() == parsed_fields(s@),
{
    timestamp_or_epoch(chrono_parse(s))
}

} // verus!
