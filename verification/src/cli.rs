//! What the command-line tool works out before it prints.

use vstd::prelude::*;

verus! {

/// A span of time as hours, minutes below 60 and seconds below 60.
#[derive(Debug, Clone, Copy, PartialEq, Eq, Structural)]
pub struct TimeLeft {
    pub hours: u64,
    pub minutes: u64,
    pub seconds: u64,
}

/// How much of a span is shown.
#[derive(Debug, Clone, Copy, PartialEq, Eq, Structural)]
pub enum TimeLeftForm {
    /// Hours, minutes and seconds.
    Hours,
    /// Minutes and seconds, for less than an hour.
    Minutes,
    /// Seconds alone, for less than a minute.
    Seconds,
}

/// Splits a number of seconds into hours, minutes and seconds.
pub fn time_left(secs: u64) -> (t: TimeLeft)
    ensures
        t.hours * 3600 + t.minutes * 60 + t.seconds == secs,
        t.minutes < 60,
        t.seconds < 60,
{
    let rest = secs % 3600;
    TimeLeft { hours: secs / 3600, minutes: rest / 60, seconds: rest % 60 }
}

/// The form in which a span is shown: its largest unit that is not zero
/// leads.
pub fn time_left_form(t: TimeLeft) -> (f: TimeLeftForm)
    ensures
        f == if t.hours > 0 {
            TimeLeftForm::Hours
        } else if t.minutes > 0 {
            TimeLeftForm::Minutes
        } else {
            TimeLeftForm::Seconds
        },
{
    if t.hours > 0 {
        TimeLeftForm::Hours
    } else if t.minutes > 0 {
        TimeLeftForm::Minutes
    } else {
        TimeLeftForm::Seconds
    }
}

/// The exit code of `is-blocked`: 0 within a block period, 1 outside.
pub fn is_blocked_exit_code(blocked: bool) -> (code: i32)
    ensures
        code == if blocked {
            0i32
        } else {
            1i32
        },
{
    if blocked {
        0
    } else {
        1
    }
}

} // verus!
