use moonstone::config::{
    default_challenge_duration, default_kill_behavior, default_lock_config, default_on_tamper,
    BlockMode, Config, KillBehavior, TamperResponse,
};

#[test]
fn test_default_config() {
    let config = Config::default();
    assert!(config.is_app_allowed("com.apple.facetime"));
    assert!(!config.is_app_allowed("com.twitter.twitter"));
    assert!(config.is_website_allowed("github.com"));
    assert!(!config.is_website_allowed("twitter.com"));
}

#[test]
fn default_config_values() {
    let config = Config::default();
    assert_eq!(config.schedule.blocks.len(), 2);
    assert_eq!(config.schedule.blocks[0].start, "04:00");
    assert_eq!(config.schedule.blocks[0].end, "17:00");
    assert_eq!(config.schedule.blocks[1].start, "17:10");
    assert_eq!(config.schedule.blocks[1].end, "03:59");
    assert_eq!(config.apps.mode, BlockMode::Allowlist);
    assert_eq!(config.apps.allowed.len(), 10);
    assert_eq!(config.apps.allowed[9], "com.apple.systempreferences");
    assert_eq!(config.websites.allowed, vec!["github.com", "docs.rs", "crates.io", "localhost"]);
    assert_eq!(config.hardcore.on_tamper, TamperResponse::Sleep);
    assert_eq!(config.hardcore.emergency_disable_challenge, 300);
    assert!(config.hardcore.lock_config);
    assert_eq!(config.hardcore.kill_behavior, KillBehavior::Instant);
}

#[test]
fn default_settings() {
    assert_eq!(default_on_tamper(), TamperResponse::Sleep);
    assert_eq!(default_challenge_duration(), 300);
    assert!(default_lock_config());
    assert_eq!(default_kill_behavior(), KillBehavior::Instant);
    assert_eq!(TamperResponse::default(), TamperResponse::Sleep);
    assert_eq!(KillBehavior::default(), KillBehavior::Instant);
}

#[test]
fn subdomains_follow_their_parent() {
    let mut config = Config::default();
    assert!(config.is_website_allowed("api.github.com"));
    assert!(config.is_website_allowed("a.b.docs.rs"));
    assert!(!config.is_website_allowed("notgithub.com"));
    assert!(!config.is_website_allowed("github.com.evil.example"));
    assert!(!config.is_website_allowed(""));
    config.websites.mode = BlockMode::Blocklist;
    assert!(!config.is_website_allowed("api.github.com"));
    assert!(!config.is_website_allowed("github.com"));
    assert!(config.is_website_allowed("twitter.com"));
}

#[test]
fn config_essentials_are_always_allowed() {
    let mut config = Config::default();
    config.apps.allowed = vec![];
    assert!(config.is_app_allowed("com.apple.Spotlight"));
    assert!(config.is_app_allowed("com.apple.dock"));
    assert!(config.is_app_allowed("com.apple.finder"));
    assert!(config.is_app_allowed("com.apple.systemuiserver"));
    assert!(config.is_app_allowed("com.apple.controlcenter"));
    assert!(!config.is_app_allowed("com.apple.Terminal"));
    config.apps.mode = BlockMode::Blocklist;
    config.apps.allowed = vec![
        "com.apple.Spotlight".to_string(),
        "com.apple.Safari".to_string(),
        "com.apple.finder".to_string(),
    ];
    assert!(config.is_app_allowed("com.apple.Spotlight"));
    assert!(!config.is_app_allowed("com.apple.Safari"));
    assert!(config.is_app_allowed("com.apple.finder"));
}
