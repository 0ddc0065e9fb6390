use moonstone::config::BlockMode;
use moonstone::net_enforcer::{
    generate_rules, resolved_addresses, unique_addresses, NetworkEnforcer,
};
use moonstone::network::{join, setup_pf_anchor, union_all, NetworkBlocker};
use moonstone::policy::WebsitePolicy;

fn ips(list: &[&str]) -> Vec<String> {
    list.iter().map(|s| s.to_string()).collect()
}

#[test]
fn test_generate_rules() {
    let mut blocker = NetworkBlocker::new();
    blocker.resolve_allowed_domains(&vec![ips(&["1.2.3.4"]), ips(&["5.6.7.8"])]);

    let rules = blocker.generate_rules();
    // Should pass allowed IPs
    assert!(rules.contains("1.2.3.4"));
    assert!(rules.contains("5.6.7.8"));
    assert!(rules.contains("pass out quick proto"));
    // Should block everything else
    assert!(rules.contains("block drop out quick"));
}

#[test]
fn allowlist_rules_in_full() {
    let mut blocker = NetworkBlocker::new();
    blocker.resolve_allowed_domains(&vec![ips(&["1.2.3.4", "5.6.7.8"]), vec![], ips(&["1.2.3.4", "9.9.9.9"])]);
    let rules = blocker.generate_rules();
    let expected = "# Moonstone blocking rules - DO NOT EDIT\n\
# Generated automatically\n\
# Allow loopback\n\
pass out quick on lo0 all\n\
# Allow DNS for resolution\n\
pass out quick proto { tcp, udp } to any port 53\n\
# Allow DHCP\n\
pass out quick proto udp to any port { 67, 68 }\n\
# Allow GitHub CIDR ranges (they use many IPs)\n\
pass out quick proto { tcp, udp } to 140.82.112.0/20\n\
pass out quick proto { tcp, udp } to 185.199.108.0/22\n\
pass out quick proto { tcp, udp } to 192.30.252.0/22\n\
# Allow Apple services (Music, iCloud, etc)\n\
pass out quick proto { tcp, udp } to 17.0.0.0/8\n\
# Allow Akamai CDN (used by Apple Music, etc)\n\
pass out quick proto { tcp, udp } to 23.0.0.0/8\n\
pass out quick proto { tcp, udp } to 104.64.0.0/10\n\
# Allow specific domains\n\
pass out quick proto { tcp, udp } to { 1.2.3.4, 5.6.7.8, 9.9.9.9 }\n\
# Block all other outbound traffic\n\
block drop out quick proto { tcp, udp } all\n";
    assert_eq!(rules, expected);
    // the same policy gives the same rules
    assert_eq!(blocker.generate_rules(), expected);
}

#[test]
fn blocklist_rules_in_full() {
    let mut blocker = NetworkBlocker::new();
    blocker.set_mode(BlockMode::Blocklist);
    blocker.resolve_blocked_domains(&vec![ips(&["10.0.0.1"]), ips(&["10.0.0.2"])]);
    let rules = blocker.generate_rules();
    assert!(rules.starts_with("# Moonstone blocking rules - DO NOT EDIT\n"));
    assert!(rules.contains("# Reddit\nblock drop out quick proto { tcp, udp } to 151.101.0.0/16\nblock drop out quick proto { tcp, udp } to 10.0.0.1\nblock drop out quick proto { tcp, udp } to 10.0.0.2\n# Allow all other outbound traffic\npass out quick all\n"));
    assert!(rules.ends_with("pass out quick all\n"));
    assert!(!rules.contains("140.82.112.0/20"));
}

#[test]
fn empty_allowlist_is_not_loaded() {
    let mut blocker = NetworkBlocker::new();
    assert!(!blocker.is_active());
    assert_eq!(blocker.enable_blocking(), None);
    assert!(!blocker.disable_blocking());
    let rules = blocker.generate_rules();
    assert!(!rules.contains("# Allow specific domains"));
    assert!(rules.ends_with("block drop out quick proto { tcp, udp } all\n"));

    blocker.set_mode(BlockMode::Blocklist);
    let planned = blocker.enable_blocking().unwrap();
    assert_eq!(planned, blocker.generate_rules());
    blocker.set_active(true);
    assert!(blocker.is_active());
    assert!(blocker.disable_blocking());
    blocker.set_active(false);
    assert!(!blocker.disable_blocking());

    blocker.set_mode(BlockMode::Allowlist);
    blocker.resolve_allowed_domains(&vec![ips(&["1.1.1.1"])]);
    assert!(blocker.enable_blocking().unwrap().contains("to { 1.1.1.1 }\n"));
    blocker.resolve_allowed_domains(&vec![]);
    assert_eq!(blocker.enable_blocking(), None);
}

#[test]
fn joining_and_union() {
    assert_eq!(join(&ips(&[]), ", "), "");
    assert_eq!(join(&ips(&["a"]), ", "), "a");
    assert_eq!(join(&ips(&["a", "b", "c"]), ", "), "a, b, c");
    assert_eq!(union_all(&vec![ips(&["a", "b"]), ips(&["b", "c", "a"]), ips(&[])]), ips(&["a", "b", "c"]));
    assert!(union_all(&vec![]).is_empty());
}

#[test]
fn anchor_is_added_once() {
    let conf = "scrub-anchor \"com.apple/*\"\n";
    let updated = setup_pf_anchor(conf).unwrap();
    assert_eq!(
        updated,
        "scrub-anchor \"com.apple/*\"\n\n# Moonstone network blocking\nanchor \"com.moonstone\"\nload anchor \"com.moonstone\" from \"/etc/pf.anchors/com.moonstone\"\n"
    );
    assert_eq!(setup_pf_anchor(&updated), None);
    assert!(setup_pf_anchor("").is_some());
}

const ALLOW_HEAD: &str = "# Moonstone blocking rules - DO NOT EDIT\n\
# Generated automatically\n\
# Allow loopback\n\
pass out quick on lo0 all\n\
# Allow DNS for resolution\n\
pass out quick proto { tcp, udp } to any port 53\n\
# Allow DHCP\n\
pass out quick proto udp to any port { 67, 68 }\n\
# Allow GitHub CIDR ranges (they use many IPs)\n\
pass out quick proto { tcp, udp } to 140.82.112.0/20\n\
pass out quick proto { tcp, udp } to 185.199.108.0/22\n\
pass out quick proto { tcp, udp } to 192.30.252.0/22\n\
# Allow Apple services (Music, iCloud, etc)\n\
pass out quick proto { tcp, udp } to 17.0.0.0/8\n\
# Allow Akamai CDN (used by Apple Music, etc)\n\
pass out quick proto { tcp, udp } to 23.0.0.0/8\n\
pass out quick proto { tcp, udp } to 104.64.0.0/10\n";

const BLOCK_HEAD: &str = "# Block common distraction site ranges\n\
# Twitter/X\n\
block drop out quick proto { tcp, udp } to 104.244.42.0/24\n\
block drop out quick proto { tcp, udp } to 104.244.43.0/24\n\
# TikTok\n\
block drop out quick proto { tcp, udp } to 142.250.0.0/16\n\
# Meta (Facebook, Instagram)\n\
block drop out quick proto { tcp, udp } to 157.240.0.0/16\n\
block drop out quick proto { tcp, udp } to 31.13.24.0/21\n\
block drop out quick proto { tcp, udp } to 31.13.64.0/18\n\
# Reddit\n\
block drop out quick proto { tcp, udp } to 151.101.0.0/16\n";

#[test]
fn website_policy_rules() {
    let allow = WebsitePolicy::Allowlist { domains: ips(&["example.com"]) };
    assert_eq!(
        generate_rules(&allow, &ips(&["93.184.216.34", "10.1.1.1", "93.184.216.34"])),
        format!(
            "{}pass out quick to 93.184.216.34\npass out quick to 10.1.1.1\nblock drop out quick proto {{ tcp, udp }} all\n",
            ALLOW_HEAD
        )
    );
    // loopback, DNS and DHCP stay open even where nothing resolved
    let bare = generate_rules(&allow, &vec![]);
    assert_eq!(bare, format!("{}block drop out quick proto {{ tcp, udp }} all\n", ALLOW_HEAD));
    assert!(bare.contains("pass out quick on lo0 all\n"));
    assert!(bare.contains("to any port 53\n"));
    assert!(bare.contains("to any port { 67, 68 }\n"));
    assert!(bare.ends_with("block drop out quick proto { tcp, udp } all\n"));

    let block = WebsitePolicy::Blocklist { domains: ips(&["example.com"]) };
    assert_eq!(
        generate_rules(&block, &ips(&["1.2.3.4", "1.2.3.4", "5.6.7.8"])),
        format!("{}block drop out quick to 1.2.3.4\nblock drop out quick to 5.6.7.8\n", BLOCK_HEAD)
    );
    assert_eq!(generate_rules(&block, &vec![]), BLOCK_HEAD);
    // the same policy and addresses give the same rules
    assert_eq!(generate_rules(&block, &ips(&["1.2.3.4"])), generate_rules(&block, &ips(&["1.2.3.4"])));
}

#[test]
fn each_address_once() {
    assert_eq!(unique_addresses(&ips(&["a", "b", "a", "c", "b"])), ips(&["a", "b", "c"]));
    assert!(unique_addresses(&vec![]).is_empty());
}

#[test]
fn resolver_answers() {
    let answer = "www.example.com.\n93.184.216.34\n  10.0.0.7 \r\n\n;; timed out\n2606:2800::1\n";
    assert_eq!(resolved_addresses(answer), ips(&["93.184.216.34", "10.0.0.7", "2606:2800::1"]));
    assert!(resolved_addresses("").is_empty());
    assert!(resolved_addresses("alias.example.\n").is_empty());
}

#[test]
fn network_enforcer_states() {
    let mut e = NetworkEnforcer::new();
    assert!(!e.enabled);
    assert_eq!(e.disable(), None);
    let policy = WebsitePolicy::Blocklist { domains: vec![] };
    assert_eq!(
        e.apply(&policy, &ips(&["1.2.3.4"])),
        format!("{}block drop out quick to 1.2.3.4\n", BLOCK_HEAD)
    );
    e.set_enabled(true);
    assert_eq!(e.disable(), Some(String::new()));
    e.set_enabled(false);
    assert_eq!(e.disable(), None);
    assert!(!NetworkEnforcer::default().enabled);
}
