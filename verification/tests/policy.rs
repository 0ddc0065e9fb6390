use moonstone::policy::{AppPolicy, Schedule, TimePeriod};

#[test]
fn test_app_allowlist() {
    let policy = AppPolicy::Allowlist {
        apps: vec!["com.apple.Terminal".into()],
    };

    assert!(policy.is_allowed("com.apple.Terminal"));
    assert!(!policy.is_allowed("com.apple.Safari"));
    // System essentials always allowed
    assert!(policy.is_allowed("com.apple.finder"));
}

#[test]
fn test_app_blocklist() {
    let policy = AppPolicy::Blocklist {
        apps: vec!["com.twitter.twitter".into()],
    };

    assert!(!policy.is_allowed("com.twitter.twitter"));
    assert!(policy.is_allowed("com.apple.Terminal"));
}

#[test]
fn blocklist_cannot_block_system_essentials() {
    let policy = AppPolicy::Blocklist {
        apps: vec!["com.apple.dock".into(), "com.apple.loginwindow".into()],
    };
    assert!(policy.is_allowed("com.apple.dock"));
    assert!(policy.is_allowed("com.apple.loginwindow"));
    assert!(policy.is_allowed("com.apple.notificationcenterui"));
    assert!(policy.is_allowed("com.apple.Spotlight"));
    assert!(policy.is_allowed("com.apple.finder"));
}

fn night() -> Schedule {
    Schedule {
        periods: vec![TimePeriod {
            start: "22:00".into(),
            end: "06:00".into(),
            days: vec![],
        }],
    }
}

#[test]
fn midnight_crossing_period() {
    let s = night();
    assert!(s.is_active_at("23:00", 3));
    assert!(s.is_active_at("05:00", 3));
    assert!(!s.is_active_at("10:00", 3));
    assert!(s.is_active_at("22:00", 0));
    assert!(s.is_active_at("06:00", 6));
    assert!(!s.is_active_at("06:01", 6));
    assert!(!s.is_active_at("21:59", 6));
}

#[test]
fn daytime_period_and_days() {
    let s = Schedule {
        periods: vec![TimePeriod {
            start: "09:00".into(),
            end: "17:00".into(),
            days: vec![1, 2, 3, 4, 5],
        }],
    };
    assert!(s.is_active_at("09:00", 1));
    assert!(s.is_active_at("12:30", 5));
    assert!(s.is_active_at("17:00", 3));
    assert!(!s.is_active_at("17:01", 3));
    assert!(!s.is_active_at("08:59", 3));
    // Sunday and Saturday are not listed.
    assert!(!s.is_active_at("12:30", 0));
    assert!(!s.is_active_at("12:30", 6));
}

#[test]
fn empty_schedule_is_never_active() {
    let s = Schedule { periods: vec![] };
    assert!(!s.is_active_at("12:00", 2));
    assert!(!s.is_active());
}

#[test]
fn is_active_agrees_with_some_clock_reading() {
    let always = Schedule {
        periods: vec![TimePeriod {
            start: "00:00".into(),
            end: "23:59".into(),
            days: vec![],
        }],
    };
    assert!(always.is_active());
}

#[test]
fn the_clock_reads_a_weekday() {
    let on = |days: Vec<u8>| Schedule {
        periods: vec![TimePeriod { start: "00:00".into(), end: "23:59".into(), days }],
    };
    assert!(on(vec![0, 1, 2, 3, 4, 5, 6]).is_active());
    assert!(!on(vec![7]).is_active());
    assert!(!on(vec![7, 8, 255]).is_active());
}
