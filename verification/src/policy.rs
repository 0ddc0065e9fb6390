//! Focus policy types, as distributed to agents: when blocking is active, and
//! which applications and websites it lets through.

use vstd::prelude::*;
use vstd::string::*;
use crate::clock::local_now;
use crate::text::{contains_str, listed, str_eq, str_le, str_le_spec};

verus! {

/// Focus policy received from MDM server.
#[derive(Debug, Clone)]
pub struct FocusPolicy {
    /// Schedule defining when blocking is active.
    pub schedule: Schedule,
    /// App blocking configuration.
    pub apps: AppPolicy,
    /// Website blocking configuration.
    pub websites: WebsitePolicy,
}

/// Time-based schedule.
#[derive(Debug, Clone)]
pub struct Schedule {
    /// Time periods when blocking is active.
    pub periods: Vec<TimePeriod>,
}

/// A time period.
#[derive(Debug, Clone)]
pub struct TimePeriod {
    /// Start time (HH:MM format).
    pub start: String,
    /// End time (HH:MM format).
    pub end: String,
    /// Days of week (0 = Sunday, 6 = Saturday). Empty = all days.
    pub days: Vec<u8>,
}

/// App blocking policy.
#[derive(Debug, Clone)]
pub enum AppPolicy {
    /// Block all apps except those in the list.
    Allowlist { apps: Vec<String> },
    /// Allow all apps except those in the list.
    Blocklist { apps: Vec<String> },
}

/// Website blocking policy.
#[derive(Debug, Clone)]
pub enum WebsitePolicy {
    /// Block all websites except those in the list.
    Allowlist { domains: Vec<String> },
    /// Allow all websites except those in the list.
    Blocklist { domains: Vec<String> },
}

/// The platform bundle identifiers that are always permitted: no policy
/// and no configuration can block them, in either mode.
pub open spec fn is_system_essential(s: Seq<char>) -> bool {
    ||| s == "com.apple.dock"@
    ||| s == "com.apple.finder"@
    ||| s == "com.apple.loginwindow"@
    ||| s == "com.apple.SecurityAgent"@
    ||| s == "com.apple.WindowManager"@
    ||| s == "com.apple.systemuiserver"@
    ||| s == "com.apple.controlcenter"@
    ||| s == "com.apple.notificationcenterui"@
    ||| s == "com.apple.Spotlight"@
}

/// Whether `bundle_id` is a platform bundle identifier that is always
/// permitted.
pub fn system_essential(bundle_id: &str) -> (r: bool)
    ensures
        r == is_system_essential(bundle_id@),
{
    str_eq(bundle_id, "com.apple.dock") || str_eq(bundle_id, "com.apple.finder") || str_eq(
        bundle_id,
        "com.apple.loginwindow",
    ) || str_eq(bundle_id, "com.apple.SecurityAgent") || str_eq(
        bundle_id,
        "com.apple.WindowManager",
    ) || str_eq(bundle_id, "com.apple.systemuiserver") || str_eq(
        bundle_id,
        "com.apple.controlcenter",
    ) || str_eq(bundle_id, "com.apple.notificationcenterui") || str_eq(
        bundle_id,
        "com.apple.Spotlight",
    )
}

impl TimePeriod {
    /// Whether the period covers the time of day `time` on weekday `day`. A
    /// period with no days listed holds on every day. Where the start does
    /// not come after the end, the period runs from start to end, both
    /// included; otherwise it crosses midnight, and covers what is at or
    /// after the start or at or before the end.
    pub open spec fn active_at(self, time: Seq<char>, day: u8) -> bool {
        &&& self.days@.len() == 0 || self.days@.contains(day)
        &&& if str_le_spec(self.start@, self.end@) {
            str_le_spec(self.start@, time) && str_le_spec(time, self.end@)
        } else {
            str_le_spec(self.start@, time) || str_le_spec(time, self.end@)
        }
    }

    /// Whether `day` satisfies the period's constraint on the weekday.
    fn on_day(&self, day: u8) -> (r: bool)
        ensures
            r == (self.days@.len() == 0 || self.days@.contains(day)),
    {
        if self.days.len() == 0 {
            return true;
        }
        let mut i: usize = 0;
        while i < self.days.len()
            invariant
                i <= self.days@.len(),
                forall|j: int| 0 <= j < i ==> self.days@[j] != day,
            decreases self.days@.len() - i,
        {
            if self.days[i] == day {
                return true;
            }
            i += 1;
        }
        false
    }

    /// Whether the period covers `time` (as `HH:MM`) on weekday `day`.
    pub fn is_active_at(&self, time: &str, day: u8) -> (r: bool)
        ensures
            r == self.active_at(time@, day),
    {
        if !self.on_day(day) {
            return false;
        }
        let after_start = str_le(self.start.as_str(), time);
        let before_end = str_le(time, self.end.as_str());
        if str_le(self.start.as_str(), self.end.as_str()) {
            after_start && before_end
        } else {
            after_start || before_end
        }
    }
}

impl Schedule {
    /// Whether some period of the schedule covers `time` on weekday `day`.
    pub open spec fn active_at(self, time: Seq<char>, day: u8) -> bool {
        exists|i: int|
            0 <= i < self.periods@.len() && #[trigger] self.periods@[i].active_at(time, day)
    }

    /// Whether blocking is active at `time` (as `HH:MM`) on weekday `day`.
    pub fn is_active_at(&self, time: &str, day: u8) -> (r: bool)
        ensures
            r == self.active_at(time@, day),
    {
        let mut i: usize = 0;
        while i < self.periods.len()
            invariant
                i <= self.periods@.len(),
                forall|j: int| 0 <= j < i ==> !self.periods@[j].active_at(time@, day),
            decreases self.periods@.len() - i,
        {
            if self.periods[i].is_active_at(time, day) {
                return true;
            }
            i += 1;
        }
        false
    }

    /// Check if the current time is within any active period. The answer is
    /// that of `is_active_at` for one reading of the local clock.
    pub fn is_active(&self) -> (r: bool)
        ensures
            exists|time: Seq<char>, day: u8|
                crate::clock::is_hhmm(time) && day < 7 && r == #[trigger] self.active_at(time, day),
    {
        let now = local_now();
        let r = self.is_active_at(now.time.as_str(), now.weekday);
        assert(crate::clock::is_hhmm(now.time@) && now.weekday < 7 && r == self.active_at(
            now.time@,
            now.weekday,
        ));
        r
    }
}

impl AppPolicy {
    /// Whether the policy lets the application `s` run: a platform essential
    /// always; otherwise a member of the allow-list, or a non-member of the
    /// block-list.
    pub open spec fn permits(self, s: Seq<char>) -> bool {
        is_system_essential(s) || match self {
            AppPolicy::Allowlist { apps } => listed(apps@, s),
            AppPolicy::Blocklist { apps } => !listed(apps@, s),
        }
    }

    /// Check if an app (by bundle ID) is allowed.
    pub fn is_allowed(&self, bundle_id: &str) -> (r: bool)
        ensures
            r == self.permits(bundle_id@),
    {
        if system_essential(bundle_id) {
            return true;
        }
        match self {
            AppPolicy::Allowlist { apps } => contains_str(apps, bundle_id),
            AppPolicy::Blocklist { apps } => !contains_str(apps, bundle_id),
        }
    }
}

/// On times of day written as `HH:MM`, the order of strings is the order of
/// time: a period's start, end and the time asked about compare as the
/// minutes of the day they name.
pub proof fn lemma_clock_order(a: Seq<char>, b: Seq<char>)
    requires
        crate::clock::is_hhmm(a),
        crate::clock::is_hhmm(b),
    ensures
        str_le_spec(a, b) <==> crate::clock::hhmm_minutes(a) <= crate::clock::hhmm_minutes(b),
{
    let x = vstd::utf8::encode_utf8(a);
    let y = vstd::utf8::encode_utf8(b);
    assert(vstd::utf8::is_ascii_chars(a));
    assert(vstd::utf8::is_ascii_chars(b));
    vstd::utf8::is_ascii_chars_encode_utf8(a);
    vstd::utf8::is_ascii_chars_encode_utf8(b);
    assert(x.len() == 5 && y.len() == 5);
    assert forall|i: int| 0 <= i < 5 implies x[i] == a[i] as u8 && y[i] == b[i] as u8 by {
        assert(a[i] as u8 == x[i]);
        assert(b[i] as u8 == y[i]);
    }
    lemma_lex_five(x, y);
}

/// The lexicographic order of two strings of five bytes, byte by byte.
proof fn lemma_lex_five(x: Seq<u8>, y: Seq<u8>)
    requires
        x.len() == 5,
        y.len() == 5,
    ensures
        crate::text::lex_le(x, y) <==> {
            ||| x[0] < y[0]
            ||| x[0] == y[0] && x[1] < y[1]
            ||| x[0] == y[0] && x[1] == y[1] && x[2] < y[2]
            ||| x[0] == y[0] && x[1] == y[1] && x[2] == y[2] && x[3] < y[3]
            ||| x[0] == y[0] && x[1] == y[1] && x[2] == y[2] && x[3] == y[3] && x[4] <= y[4]
        },
{
    let x1 = x.drop_first();
    let y1 = y.drop_first();
    let x2 = x1.drop_first();
    let y2 = y1.drop_first();
    let x3 = x2.drop_first();
    let y3 = y2.drop_first();
    let x4 = x3.drop_first();
    let y4 = y3.drop_first();
    let x5 = x4.drop_first();
    let y5 = y4.drop_first();
    assert(x1[0] == x[1] && y1[0] == y[1]);
    assert(x2[0] == x[2] && y2[0] == y[2]);
    assert(x3[0] == x[3] && y3[0] == y[3]);
    assert(x4[0] == x[4] && y4[0] == y[4]);
    assert(x5.len() == 0);
    assert(crate::text::lex_le(x5, y5));
    assert(crate::text::lex_le(x4, y4) <==> (x[4] < y[4] || x[4] == y[4]));
    assert(crate::text::lex_le(x3, y3) <==> (x[3] < y[3] || (x[3] == y[3] && crate::text::lex_le(
        x4,
        y4,
    ))));
    assert(crate::text::lex_le(x2, y2) <==> (x[2] < y[2] || (x[2] == y[2] && crate::text::lex_le(
        x3,
        y3,
    ))));
    assert(crate::text::lex_le(x1, y1) <==> (x[1] < y[1] || (x[1] == y[1] && crate::text::lex_le(
        x2,
        y2,
    ))));
    assert(crate::text::lex_le(x, y) <==> (x[0] < y[0] || (x[0] == y[0] && crate::text::lex_le(
        x1,
        y1,
    ))));
}

/// An allow-list permits exactly its members and the platform essentials.
pub proof fn lemma_allowlist_permits(apps: Vec<String>, s: Seq<char>)
    ensures
        (AppPolicy::Allowlist { apps }).permits(s) <==> (listed(apps@, s) || is_system_essential(s)),
{
}

/// A block-list refuses exactly its members that are not platform essentials.
pub proof fn lemma_blocklist_permits(apps: Vec<String>, s: Seq<char>)
    ensures
        !(AppPolicy::Blocklist { apps }).permits(s) <==> (listed(apps@, s) && !is_system_essential(s)),
{
}

} // verus!
