//! The network side of a focus policy: the packet-filter rules for a website
//! policy, from the addresses its domains resolved to.

use vstd::prelude::*;
use vstd::string::*;
use crate::clock::is_digit;
use crate::network::{
    always_allowed_rules, always_allowed_text, base_rules, base_rules_text, distraction_rules,
    distraction_text,
};
use crate::policy::WebsitePolicy;
use crate::text::{
    char_views, chars_of, contains_str, lines_of_chars, listed, string_of, text_lines, trim_chars,
    trimmed, views,
};

verus! {

/// Path to the moonstone anchor file.
pub const ANCHOR_PATH: &'static str = "/etc/pf.anchors/com.moonstone";

/// Network enforcer using pf firewall.
#[derive(Debug, Clone, Copy)]
pub struct NetworkEnforcer {
    pub enabled: bool,
}

/// One rule for each address, made of `before`, the address and a line end.
pub open spec fn rule_lines(before: Seq<char>, ips: Seq<Seq<char>>) -> Seq<char>
    decreases ips.len(),
{
    if ips.len() == 0 {
        Seq::empty()
    } else {
        rule_lines(before, ips.drop_last()) + before + ips.last() + "\n"@
    }
}

/// The addresses of a list, each once, where it is first met.
pub open spec fn each_once(ips: Seq<Seq<char>>) -> Seq<Seq<char>>
    decreases ips.len(),
{
    if ips.len() == 0 {
        Seq::empty()
    } else {
        let before = each_once(ips.drop_last());
        if before.contains(ips.last()) {
            before
        } else {
            before.push(ips.last())
        }
    }
}

/// The line that ends an allow-list: all other traffic is dropped.
pub open spec fn block_all_rule() -> Seq<char> {
    "block drop out quick proto { tcp, udp } all\n"@
}

/// The rules for a website policy, from the addresses that its domains
/// resolved to, each address once.
///
/// An allow-list passes loopback, DNS and DHCP, the address ranges that are
/// always allowed, and each address; its last rule drops all other TCP and
/// UDP traffic. A block-list drops the known distraction ranges and each
/// address; the rest passes by default.
pub open spec fn policy_rules(policy: WebsitePolicy, ips: Seq<Seq<char>>) -> Seq<char> {
    match policy {
        WebsitePolicy::Allowlist { .. } => base_rules() + always_allowed_rules() + rule_lines(
            "pass out quick to "@,
            each_once(ips),
        ) + block_all_rule(),
        WebsitePolicy::Blocklist { .. } => distraction_rules() + rule_lines(
            "block drop out quick to "@,
            each_once(ips),
        ),
    }
}

/// The addresses of a list, each once, where it is first met.
pub fn unique_addresses(ips: &Vec<String>) -> (r: Vec<String>)
    ensures
        views(r@) == each_once(views(ips@)),
{
    let ghost all = views(ips@);
    let mut r: Vec<String> = Vec::new();
    let mut i: usize = 0;
    assert(all.take(0) =~= Seq::<Seq<char>>::empty());
    assert(views(r@) =~= each_once(all.take(0)));
    while i < ips.len()
        invariant
            i <= ips@.len(),
            all == views(ips@),
            views(r@) == each_once(all.take(i as int)),
        decreases ips@.len() - i,
    {
        proof {
            let next = all.take(i + 1);
            assert(next.drop_last() == all.take(i as int));
            assert(next.last() == ips@[i as int]@);
            lemma_listed_is_contained(r@, ips@[i as int]@);
        }
        if !contains_str(&r, ips[i].as_str()) {
            let ip = ips[i].clone();
            assert(views(r@.push(ip)) =~= views(r@).push(ip@));
            r.push(ip);
        }
        i += 1;
    }
    assert(all.take(ips@.len() as int) == all);
    r
}

/// A string is listed exactly where the views hold it.
pub proof fn lemma_listed_is_contained(list: Seq<String>, s: Seq<char>)
    ensures
        listed(list, s) <==> views(list).contains(s),
{
    if listed(list, s) {
        let k = choose|k: int| 0 <= k < list.len() && #[trigger] list[k]@ == s;
        assert(views(list)[k] == s);
    }
    if views(list).contains(s) {
        let k = choose|k: int| 0 <= k < views(list).len() && views(list)[k] == s;
        assert(list[k]@ == s);
    }
}

/// Appends one rule for each address.
fn push_rule_lines(rules: &mut String, before: &str, ips: &Vec<String>)
    ensures
        final(rules)@ == old(rules)@ + rule_lines(before@, views(ips@)),
{
    let ghost head = rules@;
    let ghost all = views(ips@);
    let mut i: usize = 0;
    assert(all.take(0) =~= Seq::<Seq<char>>::empty());
    assert(head + rule_lines(before@, all.take(0)) =~= head);
    while i < ips.len()
        invariant
            i <= ips@.len(),
            all == views(ips@),
            rules@ == head + rule_lines(before@, all.take(i as int)),
        decreases ips@.len() - i,
    {
        proof {
            let next = all.take(i + 1);
            assert(next.drop_last() == all.take(i as int));
            assert(next.last() == ips@[i as int]@);
        }
        rules.append(before);
        rules.append(ips[i].as_str());
        rules.append("\n");
        proof {
            assert(rules@ =~= head + rule_lines(before@, all.take(i + 1)));
        }
        i += 1;
    }
    assert(all.take(ips@.len() as int) == all);
}

/// Generate pf rules for a website policy whose domains resolved to `ips`.
pub fn generate_rules(policy: &WebsitePolicy, ips: &Vec<String>) -> (rules: String)
    ensures
        rules@ == policy_rules(*policy, views(ips@)),
{
    let unique = unique_addresses(ips);
    let mut rules = String::new();
    match policy {
        WebsitePolicy::Allowlist { domains } => {
            rules.append(base_rules_text());
            rules.append(always_allowed_text());
            push_rule_lines(&mut rules, "pass out quick to ", &unique);
            rules.append("block drop out quick proto { tcp, udp } all\n");
            assert(rules@ =~= policy_rules(*policy, views(ips@)));
        },
        WebsitePolicy::Blocklist { domains } => {
            rules.append(distraction_text());
            push_rule_lines(&mut rules, "block drop out quick to ", &unique);
            assert(rules@ =~= policy_rules(*policy, views(ips@)));
        },
    }
    rules
}

/// Whether a line of a resolver's answer looks like an address: it begins
/// with a digit.
pub open spec fn looks_like_address(line: Seq<char>) -> bool {
    line.len() > 0 && is_digit(line[0])
}

/// The addresses in a resolver's short answer: its lines, without the
/// whitespace around them, that begin with a digit.
pub open spec fn answer_addresses(answer: Seq<char>) -> Seq<Seq<char>> {
    text_lines(answer).map_values(|l: Seq<char>| trimmed(l)).filter(
        |l: Seq<char>| looks_like_address(l),
    )
}

/// Reads the addresses from the short answer of a resolver, one per line;
/// lines that are names (aliases) or empty are passed over.
pub fn resolved_addresses(answer: &str) -> (ips: Vec<String>)
    ensures
        views(ips@) == answer_addresses(answer@),
{
    let text = chars_of(answer);
    let lines = lines_of_chars(&text);
    let ghost trimmed_lines = text_lines(answer@).map_values(|l: Seq<char>| trimmed(l));
    let ghost keep = |l: Seq<char>| looks_like_address(l);
    let mut ips: Vec<String> = Vec::new();
    let mut i: usize = 0;
    proof {
        reveal(Seq::filter);
        assert(trimmed_lines.take(0).filter(keep) =~= Seq::<Seq<char>>::empty());
    }
    while i < lines.len()
        invariant
            i <= lines@.len(),
            char_views(lines@) == text_lines(answer@),
            trimmed_lines == text_lines(answer@).map_values(|l: Seq<char>| trimmed(l)),
            keep == (|l: Seq<char>| looks_like_address(l)),
            views(ips@) == trimmed_lines.take(i as int).filter(keep),
        decreases lines@.len() - i,
    {
        let line = trim_chars(&lines[i]);
        proof {
            assert(char_views(lines@)[i as int] == lines@[i as int]@);
            assert(trimmed_lines[i as int] == line@);
            assert(trimmed_lines.take(i + 1) == trimmed_lines.take(i as int).push(line@));
            trimmed_lines.take(i as int).lemma_filter_push(line@, keep);
        }
        if line.len() > 0 && line[0] >= '0' && line[0] <= '9' {
            let ip = string_of(&line);
            assert(views(ips@.push(ip)) =~= views(ips@).push(line@));
            ips.push(ip);
        }
        i += 1;
    }
    assert(trimmed_lines.take(lines@.len() as int) == trimmed_lines);
    ips
}

impl NetworkEnforcer {
    /// Create a new network enforcer, with no rules in place.
    pub fn new() -> (r: Self)
        ensures
            !r.enabled,
    {
        NetworkEnforcer { enabled: false }
    }

    /// The rules to write and load in order to apply a website policy.
    /// Applying a policy twice gives the same rules twice.
    pub fn apply(&self, policy: &WebsitePolicy, ips: &Vec<String>) -> (rules: String)
        ensures
            rules@ == policy_rules(*policy, views(ips@)),
    {
        generate_rules(policy, ips)
    }

    /// Records whether the rules are in place.
    pub fn set_enabled(&mut self, enabled: bool)
        ensures
            final(self).enabled == enabled,
    {
        self.enabled = enabled;
    }

    /// The rules to write and load in order to disable blocking: empty
    /// rules where blocking is in place, `None` where it is not.
    pub fn disable(&self) -> (rules: Option<String>)
        ensures
            match rules {
                Some(text) => self.enabled && text@.len() == 0,
                None => !self.enabled,
            },
    {
        if self.enabled {
            Some(String::new())
        } else {
            None
        }
    }
}

impl Default for NetworkEnforcer {
    fn default() -> (r: Self)
        ensures
            !r.enabled,
    {
        NetworkEnforcer::new()
    }
}

} // verus!
