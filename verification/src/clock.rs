//! Readings of the wall clock, and the parsing of clock times, both done by
//! `chrono`.

use vstd::prelude::*;
use chrono::Datelike;
use chrono::Timelike;

verus! {

/// A decimal digit.
pub open spec fn is_digit(c: char) -> bool {
    '0' <= c <= '9'
}

/// The value of a decimal digit.
pub open spec fn digit_value(c: char) -> int {
    c as int - '0' as int
}

/// A time of day written as two digits for the hour (00 to 23), a colon and
/// two digits for the minute (00 to 59).
pub open spec fn is_hhmm(s: Seq<char>) -> bool {
    &&& s.len() == 5
    &&& is_digit(s[0])
    &&& is_digit(s[1])
    &&& s[2] == ':'
    &&& is_digit(s[3])
    &&& is_digit(s[4])
    &&& digit_value(s[0]) * 10 + digit_value(s[1]) < 24
    &&& digit_value(s[3]) * 10 + digit_value(s[4]) < 60
}

/// The minute of the day that a well-formed `HH:MM` string names.
pub open spec fn hhmm_minutes(s: Seq<char>) -> int {
    (digit_value(s[0]) * 10 + digit_value(s[1])) * 60 + digit_value(s[3]) * 10 + digit_value(s[4])
}

/// A reading of the local wall clock.
pub struct LocalClock {
    /// The time of day as `HH:MM`.
    pub time: String,
    /// The day of the week, Sunday = 0 to Saturday = 6.
    pub weekday: u8,
    /// Seconds since the last midnight.
    pub seconds: u32,
}

impl LocalClock {
    /// What every reading of the clock satisfies.
    pub open spec fn valid(self) -> bool {
        &&& is_hhmm(self.time@)
        &&& self.weekday < 7
        &&& self.seconds < 86400
    }
}

/// Reads the local wall clock with `chrono::Local::now`. The time is
/// formatted with `%H:%M`, which chrono documents as the zero-padded hour
/// 00 to 23 and minute 00 to 59; the weekday is `num_days_from_sunday`, 0 to
/// 6; the seconds are `num_seconds_from_midnight`, documented as 0 to 86399.
/// Nothing is claimed about which time it is.
#[verifier::external_body]
pub(crate) fn local_now() -> (now: LocalClock)
    ensures
        now.valid(),
{
    let t = chrono::Local::now();
    LocalClock {
        time: t.format("%H:%M").to_string(),
        weekday: t.weekday().num_days_from_sunday() as u8,
        seconds: t.num_seconds_from_midnight(),
    }
}

/// The seconds past midnight that `chrono::NaiveTime::parse_from_str` reads
/// from a string under the format `%H:%M`, or `None` where it reports an
/// error.
pub uninterp spec fn chrono_parse_hm(s: Seq<char>) -> Option<u32>;

/// Parses a time of day with `chrono::NaiveTime::parse_from_str` and the
/// format `%H:%M`. The result is that function's, as seconds past midnight;
/// chrono documents every time of day as an integer in 0 to 86399.
#[verifier::external_body]
pub(crate) fn parse_hm(s: &str) -> (r: Option<u32>)
    ensures
        r == chrono_parse_hm(s@),
        r matches Some(t) ==> t < 86400,
{
    match chrono::NaiveTime::parse_from_str(s, "%H:%M") {
        Ok(t) => Some(t.num_seconds_from_midnight()),
        Err(_) => None,
    }
}

} // verus!
