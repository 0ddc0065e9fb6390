//! The agent's configuration: block periods, the application and website
//! lists, and the tamper settings.

use vstd::prelude::*;
use vstd::string::*;
use crate::policy::{is_system_essential, system_essential};
use crate::text::{contains_str, ends_with_dot_suffix, is_dot_suffix, listed, str_eq, views};

verus! {

/// The whole configuration.
#[derive(Debug, Clone)]
pub struct Config {
    pub schedule: ScheduleConfig,
    pub apps: AppsConfig,
    pub websites: WebsitesConfig,
    pub hardcore: HardcoreConfig,
}

/// The block periods.
#[derive(Debug, Clone)]
pub struct ScheduleConfig {
    pub blocks: Vec<BlockPeriod>,
}

/// One block period, from `start` to `end`, each in "HH:MM" format.
#[derive(Debug, Clone)]
pub struct BlockPeriod {
    pub start: String,
    pub end: String,
}

/// The application list (bundle identifiers) and how it is read.
#[derive(Debug, Clone)]
pub struct AppsConfig {
    pub mode: BlockMode,
    pub allowed: Vec<String>,
}

/// The website list (domains) and how it is read.
#[derive(Debug, Clone)]
pub struct WebsitesConfig {
    pub mode: BlockMode,
    pub allowed: Vec<String>,
}

/// Whether a list names what is let through or what is refused.
#[derive(Debug, Clone, Copy, PartialEq, Eq, Structural)]
pub enum BlockMode {
    Allowlist,
    Blocklist,
}

/// The settings that make the agent hard to switch off.
#[derive(Debug, Clone)]
pub struct HardcoreConfig {
    pub on_tamper: TamperResponse,
    /// Seconds the emergency-disable challenge lasts.
    pub emergency_disable_challenge: u32,
    pub lock_config: bool,
    pub kill_behavior: KillBehavior,
}

/// What the watchdog does when the agent stops answering.
#[derive(Debug, Clone, Copy, PartialEq, Eq, Structural)]
pub enum TamperResponse {
    Sleep,
    Shutdown,
    Lock,
}

/// How a blocked application is ended.
#[derive(Debug, Clone, Copy, PartialEq, Eq, Structural)]
pub enum KillBehavior {
    Instant,
    Notify,
}

impl Default for TamperResponse {
    fn default() -> (r: Self)
        ensures
            r == TamperResponse::Sleep,
    {
        TamperResponse::Sleep
    }
}

impl Default for KillBehavior {
    fn default() -> (r: Self)
        ensures
            r == KillBehavior::Instant,
    {
        KillBehavior::Instant
    }
}

/// The tamper response used when the configuration names none.
pub fn default_on_tamper() -> (r: TamperResponse)
    ensures
        r == TamperResponse::Sleep,
{
    TamperResponse::Sleep
}

/// The length of the emergency-disable challenge when the configuration
/// names none: five minutes.
pub fn default_challenge_duration() -> (r: u32)
    ensures
        r == 300,
{
    300
}

/// Whether the configuration is locked when it does not say.
pub fn default_lock_config() -> (r: bool)
    ensures
        r,
{
    true
}

/// The kill behaviour used when the configuration names none.
pub fn default_kill_behavior() -> (r: KillBehavior)
    ensures
        r == KillBehavior::Instant,
{
    KillBehavior::Instant
}

/// The applications that the default configuration allows.
pub open spec fn default_apps() -> Seq<Seq<char>> {
    seq![
        "com.apple.facetime"@,
        "com.mitchellh.ghostty"@,
        "net.sourceforge.skim-app.skim"@,
        "com.beeper.beeper-desktop"@,
        "com.apple.Music"@,
        "dev.orbstack.OrbStack"@,
        "com.flexibits.fantastical2.mac"@,
        "com.apple.Terminal"@,
        "com.apple.finder"@,
        "com.apple.systempreferences"@,
    ]
}

/// The websites that the default configuration allows.
pub open spec fn default_websites() -> Seq<Seq<char>> {
    seq!["github.com"@, "docs.rs"@, "crates.io"@, "localhost"@]
}

impl Default for Config {
    /// Two block periods that leave ten minutes a day free (04:00 to 17:00,
    /// and 17:10 to 03:59 across midnight), allow-lists for applications and
    /// websites, and the default tamper settings.
    fn default() -> (r: Self)
        ensures
            r.schedule.blocks@.len() == 2,
            r.schedule.blocks@[0].start@ == "04:00"@,
            r.schedule.blocks@[0].end@ == "17:00"@,
            r.schedule.blocks@[1].start@ == "17:10"@,
            r.schedule.blocks@[1].end@ == "03:59"@,
            r.apps.mode == BlockMode::Allowlist,
            views(r.apps.allowed@) == default_apps(),
            r.websites.mode == BlockMode::Allowlist,
            views(r.websites.allowed@) == default_websites(),
            r.hardcore.on_tamper == TamperResponse::Sleep,
            r.hardcore.emergency_disable_challenge == 300,
            r.hardcore.lock_config,
            r.hardcore.kill_behavior == KillBehavior::Instant,
    {
        let blocks = vec![
            BlockPeriod { start: "04:00".to_owned(), end: "17:00".to_owned() },
            BlockPeriod { start: "17:10".to_owned(), end: "03:59".to_owned() },
        ];
        let apps = vec![
            "com.apple.facetime".to_owned(),
            "com.mitchellh.ghostty".to_owned(),
            "net.sourceforge.skim-app.skim".to_owned(),
            "com.beeper.beeper-desktop".to_owned(),
            "com.apple.Music".to_owned(),
            "dev.orbstack.OrbStack".to_owned(),
            "com.flexibits.fantastical2.mac".to_owned(),
            "com.apple.Terminal".to_owned(),
            "com.apple.finder".to_owned(),
            "com.apple.systempreferences".to_owned(),
        ];
        let websites = vec![
            "github.com".to_owned(),
            "docs.rs".to_owned(),
            "crates.io".to_owned(),
            "localhost".to_owned(),
        ];
        assert(views(apps@) =~= default_apps());
        assert(views(websites@) =~= default_websites());
        Config {
            schedule: ScheduleConfig { blocks },
            apps: AppsConfig { mode: BlockMode::Allowlist, allowed: apps },
            websites: WebsitesConfig { mode: BlockMode::Allowlist, allowed: websites },
            hardcore: HardcoreConfig {
                on_tamper: default_on_tamper(),
                emergency_disable_challenge: default_challenge_duration(),
                lock_config: default_lock_config(),
                kill_behavior: default_kill_behavior(),
            },
        }
    }
}

/// Some entry of `list` is `domain` itself or a parent domain of it.
pub open spec fn domain_listed(list: Seq<String>, domain: Seq<char>) -> bool {
    exists|i: int|
        0 <= i < list.len() && (#[trigger] list[i]@ == domain || is_dot_suffix(domain, list[i]@))
}

impl Config {
    /// Whether the configuration lets the application `s` run: a system
    /// essential always; otherwise a member of the list in allow-list mode,
    /// a non-member in block-list mode.
    pub open spec fn app_allowed(self, s: Seq<char>) -> bool {
        is_system_essential(s) || match self.apps.mode {
            BlockMode::Allowlist => listed(self.apps.allowed@, s),
            BlockMode::Blocklist => !listed(self.apps.allowed@, s),
        }
    }

    /// Whether the configuration lets the website `domain` through.
    pub open spec fn website_allowed(self, domain: Seq<char>) -> bool {
        match self.websites.mode {
            BlockMode::Allowlist => domain_listed(self.websites.allowed@, domain),
            BlockMode::Blocklist => !domain_listed(self.websites.allowed@, domain),
        }
    }

    pub fn is_app_allowed(&self, bundle_id: &str) -> (r: bool)
        ensures
            r == self.app_allowed(bundle_id@),
    {
        if system_essential(bundle_id) {
            return true;
        }
        match self.apps.mode {
            BlockMode::Allowlist => contains_str(&self.apps.allowed, bundle_id),
            BlockMode::Blocklist => !contains_str(&self.apps.allowed, bundle_id),
        }
    }

    pub fn is_website_allowed(&self, domain: &str) -> (r: bool)
        ensures
            r == self.website_allowed(domain@),
    {
        let list = &self.websites.allowed;
        let mut found = false;
        let mut i: usize = 0;
        while i < list.len() && !found
            invariant
                i <= list@.len(),
                !found ==> forall|j: int|
                    0 <= j < i ==> !(list@[j]@ == domain@ || is_dot_suffix(domain@, list@[j]@)),
                found ==> domain_listed(list@, domain@),
            decreases list@.len() - i + if found { 0int } else { 1int },
        {
            if str_eq(domain, list[i].as_str()) || ends_with_dot_suffix(domain, list[i].as_str()) {
                found = true;
            } else {
                i += 1;
            }
        }
        match self.websites.mode {
            BlockMode::Allowlist => found,
            BlockMode::Blocklist => !found,
        }
    }
}

} // verus!
