use moonstone::accessibility::AppInfo;
use moonstone::app_enforcer::{AppEnforcer, Enforcement};
use moonstone::challenge::{
    challenge_length, generate_challenge, judge, simple_confirm, ChallengeState, Round,
};
use moonstone::config::{Config, TamperResponse};
use moonstone::daemon::{Daemon, NetworkPlan, TickPlan};
use moonstone::enforcer::Enforcer;
use moonstone::ipc::{socket_path, HeartbeatVerdict, IpcClient, IpcError, Message};
use moonstone::lsappinfo::{
    asns_of_bundle, first_word_of, parse_app_info, parse_app_list, parse_front_asn,
    parse_lsappinfo_output, parse_pid, parse_pids,
};
use moonstone::policy::{AppPolicy, FocusPolicy, Schedule, WebsitePolicy};
use moonstone::watchdog::{action_command, fallback_action, WatchState, WatchStep, Watchdog};

#[test]
fn test_parse_lsappinfo() {
    let output = r#"
"bundleid"="com.apple.finder"
"name"="Finder"
"#;
    let result = parse_lsappinfo_output(output);
    assert_eq!(result, Some(("com.apple.finder".into(), "Finder".into())));
}

#[test]
fn test_generate_challenge() {
    let c = generate_challenge(10);
    assert_eq!(c.len(), 10);
    assert!(c.chars().all(|ch| ch.is_ascii_alphanumeric()));
}

#[test]
fn challenges_are_lower_case_and_sized() {
    for _ in 0..50 {
        let n = challenge_length();
        assert!((8..=12).contains(&n));
        let c = generate_challenge(n);
        assert_eq!(c.chars().count(), n);
        assert!(c.chars().all(|ch| ch.is_ascii_lowercase() || ch.is_ascii_digit()));
    }
    assert_eq!(generate_challenge(0), "");
}

#[test]
fn three_mistakes_in_a_row_lose() {
    assert_eq!(judge(0, " abc123xy \n", "abc123xy"), Round::Correct);
    assert_eq!(judge(0, "nope", "abc123xy"), Round::Wrong { errors: 1 });
    assert_eq!(judge(1, "nope", "abc123xy"), Round::Wrong { errors: 2 });
    assert_eq!(judge(2, "nope", "abc123xy"), Round::Failed);
    assert_eq!(judge(2, "abc123xy", "abc123xy"), Round::Correct);
    assert_eq!(judge(0, "ABORT\n", "abc123xy"), Round::Aborted);
    assert_eq!(judge(2, "abort", "abc123xy"), Round::Aborted);
    assert_eq!(judge(0, "Abort", "abc123xy"), Round::Wrong { errors: 1 });
    assert_eq!(judge(0, "abort", "abort"), Round::Correct);

    let mut s = ChallengeState::start();
    s = s.check_time(0, 300).answer("x", "abcdefgh");
    s = s.check_time(10, 300).answer("abcdefgh", "abcdefgh");
    assert_eq!(s, ChallengeState::Running { consecutive_errors: 0 });
    s = s.answer("1", "abcdefgh").answer("2", "abcdefgh");
    assert_eq!(s, ChallengeState::Running { consecutive_errors: 2 });
    assert_eq!(s.answer("3", "abcdefgh"), ChallengeState::Lost);
    assert!(!s.check_time(299, 300).passed());
    assert!(s.check_time(300, 300).passed());
    assert_eq!(ChallengeState::Lost.check_time(1000, 300), ChallengeState::Lost);
    assert_eq!(ChallengeState::Completed.answer("x", "y"), ChallengeState::Completed);
    assert!(ChallengeState::start().check_time(0, 0).passed());
}

#[test]
fn confirming_a_phrase() {
    assert!(simple_confirm("  yes please\n", "yes please"));
    assert!(!simple_confirm("yes", "yes please"));
    assert!(simple_confirm("", ""));
}

#[test]
fn opcodes() {
    assert_eq!(Message::Heartbeat.to_byte(), 0x01);
    assert_eq!(Message::Shutdown.to_byte(), 0x02);
    assert_eq!(Message::Status.to_byte(), 0x03);
    assert_eq!(Message::EmergencyDisable.to_byte(), 0x04);
    for b in 0u8..=255 {
        match Message::from_byte(b) {
            Some(m) => {
                assert!((1..=4).contains(&b));
                assert_eq!(m.to_byte(), b);
            }
            None => assert!(b == 0 || b > 4),
        }
    }
    assert_eq!(socket_path(), "/tmp/moonstone.sock");
}

fn io() -> Result<(), IpcError> {
    Err(IpcError::Io("connection refused".into()))
}

#[test]
fn heartbeat_bookkeeping() {
    let mut c = IpcClient::new(1_000);
    assert!(c.is_daemon_alive(1_000));
    assert!(c.is_daemon_alive(2_999));
    assert!(!c.is_daemon_alive(3_000));
    assert_eq!(c.heartbeat(io(), 1_500), io());
    assert_eq!(c.last_heartbeat_ms, 1_000);
    assert_eq!(c.heartbeat(Ok(()), 2_500), Ok(()));
    assert_eq!(c.last_heartbeat_ms, 2_500);
    assert!(c.is_daemon_alive(4_499));
    assert!(!c.is_daemon_alive(4_500));
    // a clock reading before the last heartbeat counts as alive
    assert!(c.is_daemon_alive(0));

    assert_eq!(c.after_heartbeat(io(), 3_000), HeartbeatVerdict::Continue);
    assert_eq!(c.after_heartbeat(io(), 3_500), HeartbeatVerdict::Continue);
    assert_eq!(c.after_heartbeat(io(), 4_000), HeartbeatVerdict::Continue);
    assert_eq!(c.consecutive_failures, 3);
    assert_eq!(c.after_heartbeat(Ok(()), 4_500), HeartbeatVerdict::Continue);
    assert_eq!(c.consecutive_failures, 0);
    for _ in 0..3 {
        assert_eq!(c.after_heartbeat(io(), 5_000), HeartbeatVerdict::Continue);
    }
    assert_eq!(c.after_heartbeat(io(), 6_500), HeartbeatVerdict::Stop(IpcError::HeartbeatMissed));
    c.consecutive_failures = u32::MAX;
    assert_eq!(c.after_heartbeat(io(), 7_000), HeartbeatVerdict::Stop(IpcError::HeartbeatMissed));
    assert_eq!(c.consecutive_failures, u32::MAX);
}

#[test]
fn watchdog_tamper() {
    let mut w = Watchdog::new(TamperResponse::Lock, 0);
    let mut responses = vec![];
    for tick in 1..=10u64 {
        match w.on_heartbeat(io(), tick * 500, false) {
            WatchStep::Wait => {}
            WatchStep::Respond(a) => responses.push((tick, a)),
            WatchStep::End => {}
        }
    }
    // the fourth failure in a row, about two seconds in, and only then
    assert_eq!(responses, vec![(4, TamperResponse::Lock)]);
    assert_eq!(w.state, WatchState::Tripped);
    assert_eq!(w.on_heartbeat(Ok(()), 6_000, false), WatchStep::End);
}

#[test]
fn watchdog_recovers_and_stops() {
    let mut w = Watchdog::new(TamperResponse::Sleep, 0);
    for _ in 0..3 {
        assert_eq!(w.on_heartbeat(io(), 1, false), WatchStep::Wait);
    }
    assert_eq!(w.on_heartbeat(Ok(()), 2, false), WatchStep::Wait);
    for _ in 0..3 {
        assert_eq!(w.on_heartbeat(io(), 3, false), WatchStep::Wait);
    }
    assert_eq!(w.on_heartbeat(io(), 4, false), WatchStep::Respond(TamperResponse::Sleep));

    let mut w = Watchdog::new(TamperResponse::Shutdown, 0);
    for _ in 0..3 {
        w.on_heartbeat(io(), 1, false);
    }
    // a shutdown request wins over the fourth failure
    assert_eq!(w.on_heartbeat(io(), 2, true), WatchStep::End);
    assert_eq!(w.state, WatchState::Stopped);
    assert_eq!(w.on_heartbeat(io(), 3, false), WatchStep::End);
}

#[test]
fn tamper_actions_and_fallback() {
    let c = action_command(TamperResponse::Sleep);
    assert_eq!((c.program.as_str(), c.args), ("pmset", vec!["sleepnow".to_string()]));
    let c = action_command(TamperResponse::Shutdown);
    assert_eq!((c.program.as_str(), c.args), ("shutdown", vec!["-h".to_string(), "now".to_string()]));
    let c = action_command(TamperResponse::Lock);
    assert_eq!((c.program.as_str(), c.args), ("pmset", vec!["displaysleepnow".to_string()]));
    assert_eq!(fallback_action(TamperResponse::Sleep, false), Some(TamperResponse::Lock));
    assert_eq!(fallback_action(TamperResponse::Shutdown, false), Some(TamperResponse::Lock));
    assert_eq!(fallback_action(TamperResponse::Lock, false), None);
    assert_eq!(fallback_action(TamperResponse::Sleep, true), None);
}

#[test]
fn daemon_decisions() {
    let mut d = Daemon::new();
    let enforce = |network| TickPlan { stop: false, enforce: true, network };
    assert_eq!(d.on_tick(true, false), enforce(NetworkPlan::Enable));
    assert_eq!(d.on_tick(true, true), enforce(NetworkPlan::Keep));
    assert_eq!(d.on_tick(false, true), enforce(NetworkPlan::Disable));
    assert_eq!(d.on_tick(false, false), enforce(NetworkPlan::Keep));
    assert!(!d.on_message(Message::Heartbeat));
    assert!(!d.on_message(Message::Status));

    assert!(d.on_message(Message::EmergencyDisable));
    let idle = TickPlan { stop: false, enforce: false, network: NetworkPlan::Keep };
    assert_eq!(d.on_tick(true, false), idle);
    assert_eq!(d.on_tick(true, false), idle);
    assert!(d.emergency_disabled);
    // the block period ends: relief is over
    assert_eq!(d.on_tick(false, false), idle);
    assert!(!d.emergency_disabled);
    assert_eq!(d.on_tick(true, false), enforce(NetworkPlan::Enable));

    assert!(!d.on_message(Message::Shutdown));
    assert_eq!(d.on_tick(true, true), TickPlan { stop: true, enforce: false, network: NetworkPlan::Keep });
}

fn focus(apps: AppPolicy) -> FocusPolicy {
    FocusPolicy {
        schedule: Schedule { periods: vec![] },
        apps,
        websites: WebsitePolicy::Blocklist { domains: vec![] },
    }
}

#[test]
fn agent_kill() {
    let policy = focus(AppPolicy::Allowlist { apps: vec!["com.apple.Terminal".into()] });
    let mut e = AppEnforcer::new();
    assert_eq!(
        e.enforce(&policy, true, Some("com.twitter.twitter")),
        Enforcement::Kill { bundle_id: "com.twitter.twitter".into(), announce: true }
    );
    // reopened: killed again, without another announcement
    assert_eq!(
        e.enforce(&policy, true, Some("com.twitter.twitter")),
        Enforcement::Kill { bundle_id: "com.twitter.twitter".into(), announce: false }
    );
    assert_eq!(e.enforce(&policy, true, Some("com.apple.finder")), Enforcement::Idle);
    assert_eq!(e.enforce(&policy, true, Some("com.apple.Terminal")), Enforcement::Idle);
    assert_eq!(e.enforce(&policy, true, None), Enforcement::Idle);
    assert_eq!(e.recently_killed, vec!["com.twitter.twitter"]);
    // outside the schedule nothing is killed and the memory is emptied
    assert_eq!(e.enforce(&policy, false, Some("com.twitter.twitter")), Enforcement::Idle);
    assert!(e.recently_killed.is_empty());
    // both processes of the bundle get the signal
    assert_eq!(Enforcer::kill_list(101, &vec![101, 102]), vec![101, 102]);
}

#[test]
fn recently_killed_is_bounded() {
    let policy = focus(AppPolicy::Allowlist { apps: vec![] });
    let mut e = AppEnforcer::default();
    for i in 0..10 {
        assert!(e.kill_app(&format!("app.{}", i)));
    }
    assert_eq!(e.recently_killed.len(), 10);
    assert!(!e.kill_app("app.3"));
    assert_eq!(e.recently_killed.len(), 10);
    assert!(e.kill_app("app.10"));
    assert!(e.recently_killed.is_empty());
    assert!(matches!(e.enforce(&policy, true, Some("app.3")), Enforcement::Kill { announce: true, .. }));
}

fn app(pid: i32, bundle: &str) -> AppInfo {
    AppInfo { pid, bundle_id: bundle.to_string(), name: bundle.to_string() }
}

#[test]
fn enforcer_rounds() {
    let mut e = Enforcer::new(Config::default());
    let twitter = app(101, "com.twitter.twitter");
    let terminal = app(7, "com.apple.Terminal");
    assert_eq!(e.enforce_once(true, Some(&twitter)), Some(&twitter));
    assert_eq!(e.recently_killed, vec!["com.twitter.twitter"]);
    assert_eq!(e.enforce_once(true, Some(&twitter)), Some(&twitter));
    assert_eq!(e.recently_killed.len(), 1);
    assert_eq!(e.enforce_once(true, Some(&terminal)), None);
    assert_eq!(e.enforce_once(true, None), None);
    // Finder is a system essential: never killed, even with nothing allowed
    let finder = app(321, "com.apple.finder");
    let mut strict = Config::default();
    strict.apps.allowed.clear();
    let mut harsh = Enforcer::new(strict);
    assert_eq!(harsh.enforce_once(true, Some(&finder)), None);
    assert!(harsh.kill_all_blocked(true, &vec![finder.clone()]).is_empty());
    assert_eq!(harsh.enforce_once(true, Some(&twitter)), Some(&twitter));
    assert_eq!(e.enforce_once(false, Some(&twitter)), None);
    assert!(e.recently_killed.is_empty());

    assert_eq!(Enforcer::kill_list(5, &vec![3, 5, 9, 5]), vec![5, 3, 9]);
    assert_eq!(Enforcer::kill_list(5, &vec![]), vec![5]);

    let running = vec![twitter.clone(), terminal, app(55, ""), app(9, "com.apple.dock"), app(102, "org.example.game")];
    assert_eq!(e.kill_all_blocked(true, &running), vec![101, 102]);
    assert!(e.kill_all_blocked(false, &running).is_empty());

    let mut relaxed = Config::default();
    relaxed.apps.allowed.push("com.twitter.twitter".into());
    relaxed.schedule.blocks.clear();
    e.reload_config(relaxed);
    assert_eq!(e.enforce_once(true, Some(&twitter)), None);
    assert!(e.schedule.blocks.is_empty());
    assert!(!e.is_blocked());
}

#[test]
fn lsappinfo_bundle_and_name() {
    assert_eq!(
        parse_lsappinfo_output("\"bundleid\"=\"com.apple.Safari\"\n"),
        Some(("com.apple.Safari".into(), "com.apple.Safari".into()))
    );
    assert_eq!(parse_lsappinfo_output("\"name\"=\"Safari\"\n"), None);
    assert_eq!(parse_lsappinfo_output(""), None);
    // the last line of a kind decides
    assert_eq!(
        parse_lsappinfo_output("  \"bundleid\"=\"a\"\r\n\"name\"=\"A\"\n\"bundleid\"=\"b\"\n"),
        Some(("b".into(), "A".into()))
    );
}

#[test]
fn lsappinfo_pids() {
    assert_eq!(parse_pids("\"pid\"=101\n\"pid\"= 102 \r\n\"pid\"=x\n \"pid\"=5\n\"pid\"=-7\n"), vec![101, 102, -7]);
    assert!(parse_pids("").is_empty());
    assert_eq!(parse_pid("junk\n  \"pid\"=4242\n\"pid\"=1\n"), Some(4242));
    assert_eq!(parse_pid("\"pid\"=abc\n\"pid\"=1\n"), None);
    assert_eq!(parse_pid("nothing here"), None);
    // a carriage return before the line feed belongs to the line ending
    assert_eq!(parse_pid("\"pid\"=12\r\n"), Some(12));
    assert_eq!(parse_pid("junk\r\n\"pid\"=7\r\n\"pid\"=8\r\n"), Some(7));
    // a bare carriage return at the very end stays with the line
    assert_eq!(parse_pid("\"pid\"=12\r"), None);
    assert_eq!(parse_pids("\"pid\"=1\r\n\"pid\"=2\r\n"), vec![1, 2]);
    assert_eq!(parse_pid("\"pid\"=2147483647"), Some(i32::MAX));
    assert_eq!(parse_pid("\"pid\"=2147483648"), None);
    assert_eq!(parse_pid("\"pid\"=-2147483648"), Some(i32::MIN));
    assert_eq!(parse_pid("\"pid\"=-2147483649"), None);
    assert_eq!(parse_pid("\"pid\"=+12"), Some(12));
    assert_eq!(parse_pid("\"pid\"="), None);
    assert_eq!(parse_pid("\"pid\"=99999999999999999999999"), None);
}

#[test]
fn lsappinfo_front_application() {
    assert_eq!(parse_front_asn("  ASN:0x0-0x1001:\n"), Some("ASN:0x0-0x1001:".to_string()));
    assert_eq!(parse_front_asn(" \n"), None);
    let info = "\"CFBundleIdentifier\"=\"com.apple.finder\"\n\"pid\"=321\n\"LSDisplayName\"=\"Finder\"\n";
    assert_eq!(parse_app_info(info), Some(AppInfo { pid: 321, bundle_id: "com.apple.finder".into(), name: "Finder".into() }));
    assert_eq!(parse_app_info("\"pid\"=5\n"), Some(AppInfo { pid: 5, bundle_id: "".into(), name: "Unknown".into() }));
    assert_eq!(parse_app_info("\"name\"=\"X\"\n"), None);
    // a later pid line that does not read as a number takes the process away
    assert_eq!(parse_app_info("\"pid\"=5\n\"pid\"=five\n"), None);
    assert_eq!(parse_app_info("\"pid\"=5\n\"name\"=\"A\"\n\"name\"=\"B\"\n").unwrap().name, "B");
}

const LIST: &str = " 0) \"Finder\" ASN:0x0-0x1001:\n    \"CFBundleIdentifier\"=\"com.apple.finder\"\n    \"pid\"=321\n 1) \"Twitter\" ASN:0x0-0x2002:\n    \"pid\"=101\n    \"CFBundleIdentifier\"=\"com.twitter.twitter\"\n 2) \"Helper\" ASN:0x0-0x3003:\n    \"pid\"=400\n 3) \"Twitter\" ASN:0x0-0x4004:\n    \"CFBundleIdentifier\"=\"com.twitter.twitter\"\n    \"pid\"=102\n";

#[test]
fn lsappinfo_list() {
    let apps = parse_app_list(LIST);
    assert_eq!(
        apps,
        vec![
            AppInfo { pid: 321, bundle_id: "com.apple.finder".into(), name: "Finder".into() },
            AppInfo { pid: 101, bundle_id: "com.twitter.twitter".into(), name: "Twitter".into() },
            AppInfo { pid: 102, bundle_id: "com.twitter.twitter".into(), name: "Twitter".into() },
        ]
    );
    assert!(parse_app_list("").is_empty());
    assert!(parse_app_list("\"pid\"=1\n\"CFBundleIdentifier\"=\"x\"\n").is_empty());
}

#[test]
fn lsappinfo_asns_of_a_bundle() {
    assert_eq!(asns_of_bundle(LIST, "com.twitter.twitter"), vec!["1)", "3)"]);
    assert!(asns_of_bundle(LIST, "com.apple.Safari").is_empty());
    let by_asn = "ASN:0x0-0x1001:\n\"CFBundleIdentifier\"=\"a\"\nASN:0x0-0x2002:\n\"CFBundleIdentifier\"=\"b\"\n";
    assert_eq!(asns_of_bundle(by_asn, "b"), vec!["ASN:0x0-0x2002:"]);
    assert!(asns_of_bundle("\"CFBundleIdentifier\"=\"a\"\n", "a").is_empty());
    assert_eq!(first_word_of(&"  one two".chars().collect()), Some("one".chars().collect()));
    assert_eq!(first_word_of(&"   ".chars().collect()), None);
}
