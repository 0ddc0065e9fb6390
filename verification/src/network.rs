//! The packet-filter rules of the agent: which addresses are let through or
//! refused, the text of the anchor, and whether it is loaded.

use vstd::prelude::*;
use vstd::string::*;
use crate::config::BlockMode;
use crate::text::{chars_of, contains_str, find_from, find_in, listed, views};

verus! {

/// The name of the anchor.
pub const PF_ANCHOR: &'static str = "com.moonstone";

/// The file that holds the anchor's rules.
pub const PF_RULES_PATH: &'static str = "/etc/pf.anchors/com.moonstone";

/// Why the network rules could not be put in place.
#[derive(Debug, Clone, PartialEq, Eq)]
pub enum NetworkError {
    /// Reading or writing a file failed; the text says why.
    Io(String),
    /// `pfctl` refused the rules; the text is what it printed.
    PfctlError(String),
    /// A domain did not resolve.
    DnsError(String),
}

/// The addresses in play and what is done with them.
pub struct NetworkBlocker {
    allowed_ips: Vec<String>,
    blocked_ips: Vec<String>,
    mode: BlockMode,
    rules_active: bool,
}

/// No string occurs twice.
pub open spec fn distinct(list: Seq<String>) -> bool {
    forall|i: int, j: int| 0 <= i < j < list.len() ==> list[i]@ != list[j]@
}

/// The rules that every anchor begins with: loopback, DNS and DHCP stay
/// open.
pub open spec fn base_rules() -> Seq<char> {
    "# Moonstone blocking rules - DO NOT EDIT\n# Generated automatically\n# Allow loopback\npass out quick on lo0 all\n# Allow DNS for resolution\npass out quick proto { tcp, udp } to any port 53\n# Allow DHCP\npass out quick proto udp to any port { 67, 68 }\n"@
}

/// The address ranges that an allow-list always lets through.
pub open spec fn always_allowed_rules() -> Seq<char> {
    "# Allow GitHub CIDR ranges (they use many IPs)\npass out quick proto { tcp, udp } to 140.82.112.0/20\npass out quick proto { tcp, udp } to 185.199.108.0/22\npass out quick proto { tcp, udp } to 192.30.252.0/22\n# Allow Apple services (Music, iCloud, etc)\npass out quick proto { tcp, udp } to 17.0.0.0/8\n# Allow Akamai CDN (used by Apple Music, etc)\npass out quick proto { tcp, udp } to 23.0.0.0/8\npass out quick proto { tcp, udp } to 104.64.0.0/10\n"@
}

/// The address ranges that a block-list always refuses.
pub open spec fn distraction_rules() -> Seq<char> {
    "# Block common distraction site ranges\n# Twitter/X\nblock drop out quick proto { tcp, udp } to 104.244.42.0/24\nblock drop out quick proto { tcp, udp } to 104.244.43.0/24\n# TikTok\nblock drop out quick proto { tcp, udp } to 142.250.0.0/16\n# Meta (Facebook, Instagram)\nblock drop out quick proto { tcp, udp } to 157.240.0.0/16\nblock drop out quick proto { tcp, udp } to 31.13.24.0/21\nblock drop out quick proto { tcp, udp } to 31.13.64.0/18\n# Reddit\nblock drop out quick proto { tcp, udp } to 151.101.0.0/16\n"@
}

/// The text of `base_rules`.
pub fn base_rules_text() -> (t: &'static str)
    ensures
        t@ == base_rules(),
{
    "# Moonstone blocking rules - DO NOT EDIT\n# Generated automatically\n# Allow loopback\npass out quick on lo0 all\n# Allow DNS for resolution\npass out quick proto { tcp, udp } to any port 53\n# Allow DHCP\npass out quick proto udp to any port { 67, 68 }\n"
}

/// The text of `always_allowed_rules`.
pub fn always_allowed_text() -> (t: &'static str)
    ensures
        t@ == always_allowed_rules(),
{
    "# Allow GitHub CIDR ranges (they use many IPs)\npass out quick proto { tcp, udp } to 140.82.112.0/20\npass out quick proto { tcp, udp } to 185.199.108.0/22\npass out quick proto { tcp, udp } to 192.30.252.0/22\n# Allow Apple services (Music, iCloud, etc)\npass out quick proto { tcp, udp } to 17.0.0.0/8\n# Allow Akamai CDN (used by Apple Music, etc)\npass out quick proto { tcp, udp } to 23.0.0.0/8\npass out quick proto { tcp, udp } to 104.64.0.0/10\n"
}

/// The text of `distraction_rules`.
pub fn distraction_text() -> (t: &'static str)
    ensures
        t@ == distraction_rules(),
{
    "# Block common distraction site ranges\n# Twitter/X\nblock drop out quick proto { tcp, udp } to 104.244.42.0/24\nblock drop out quick proto { tcp, udp } to 104.244.43.0/24\n# TikTok\nblock drop out quick proto { tcp, udp } to 142.250.0.0/16\n# Meta (Facebook, Instagram)\nblock drop out quick proto { tcp, udp } to 157.240.0.0/16\nblock drop out quick proto { tcp, udp } to 31.13.24.0/21\nblock drop out quick proto { tcp, udp } to 31.13.64.0/18\n# Reddit\nblock drop out quick proto { tcp, udp } to 151.101.0.0/16\n"
}

/// The strings of `list`, with `sep` between each two.
pub open spec fn joined(list: Seq<Seq<char>>, sep: Seq<char>) -> Seq<char>
    decreases list.len(),
{
    if list.len() == 0 {
        Seq::empty()
    } else if list.len() == 1 {
        list[0]
    } else {
        joined(list.drop_last(), sep) + sep + list.last()
    }
}

/// The one rule that lets the listed addresses through, or nothing for an
/// empty list.
pub open spec fn pass_rule(ips: Seq<Seq<char>>) -> Seq<char> {
    if ips.len() == 0 {
        Seq::empty()
    } else {
        "# Allow specific domains\npass out quick proto { tcp, udp } to { "@ + joined(ips, ", "@)
            + " }\n"@
    }
}

/// One rule for each address, which refuses it.
pub open spec fn block_rules(ips: Seq<Seq<char>>) -> Seq<char>
    decreases ips.len(),
{
    if ips.len() == 0 {
        Seq::empty()
    } else {
        block_rules(ips.drop_last()) + "block drop out quick proto { tcp, udp } to "@ + ips.last()
            + "\n"@
    }
}

/// The text of the anchor. An allow-list lets its addresses through and
/// ends by refusing all other traffic; a block-list refuses its addresses
/// and ends by letting all other traffic through.
pub open spec fn anchor_rules(
    mode: BlockMode,
    allowed: Seq<Seq<char>>,
    blocked: Seq<Seq<char>>,
) -> Seq<char> {
    match mode {
        BlockMode::Allowlist => base_rules() + always_allowed_rules() + pass_rule(allowed)
            + "# Block all other outbound traffic\nblock drop out quick proto { tcp, udp } all\n"@,
        BlockMode::Blocklist => base_rules() + distraction_rules() + block_rules(blocked)
            + "# Allow all other outbound traffic\npass out quick all\n"@,
    }
}

/// The strings of `list` with `sep` between each two.
pub fn join(list: &Vec<String>, sep: &str) -> (r: String)
    ensures
        r@ == joined(views(list@), sep@),
{
    let mut r = String::new();
    let mut i: usize = 0;
    let ghost all = views(list@);
    assert(all.take(0) =~= Seq::<Seq<char>>::empty());
    while i < list.len()
        invariant
            i <= list@.len(),
            all == views(list@),
            r@ == joined(all.take(i as int), sep@),
        decreases list@.len() - i,
    {
        proof {
            let next = all.take(i + 1);
            assert(next.drop_last() == all.take(i as int));
            assert(next.last() == list@[i as int]@);
            if i == 0 {
                assert(next.len() == 1);
                assert(r@ + list@[i as int]@ =~= list@[i as int]@);
            }
        }
        if i > 0 {
            r.append(sep);
        }
        r.append(list[i].as_str());
        i += 1;
    }
    assert(all.take(list@.len() as int) == all);
    r
}

/// Adds what is new in `found` to `set`, in order.
pub fn add_all(set: &mut Vec<String>, found: &Vec<String>)
    requires
        distinct(old(set)@),
    ensures
        distinct(final(set)@),
        forall|s: Seq<char>| #[trigger]
            listed(final(set)@, s) <==> (listed(old(set)@, s) || listed(found@, s)),
        final(set)@.len() >= old(set)@.len(),
        final(set)@.take(old(set)@.len() as int) == old(set)@,
{
    let ghost before = set@;
    let mut i: usize = 0;
    while i < found.len()
        invariant
            i <= found@.len(),
            distinct(set@),
            set@.len() >= before.len(),
            set@.take(before.len() as int) == before,
            forall|s: Seq<char>| #[trigger]
                listed(set@, s) <==> (listed(before, s) || listed(found@.take(i as int), s)),
        decreases found@.len() - i,
    {
        let ghost prev = set@;
        let ghost seen = found@.take(i as int);
        let ghost next = found@.take(i + 1);
        let ghost item = found@[i as int]@;
        proof {
            assert(next == seen.push(found@[i as int]));
            assert forall|s: Seq<char>| listed(next, s) <==> (listed(seen, s) || s == item) by {
                if listed(next, s) {
                    let k = choose|k: int| 0 <= k < next.len() && #[trigger] next[k]@ == s;
                    if k < i {
                        assert(seen[k]@ == s);
                    }
                }
                if listed(seen, s) {
                    let k = choose|k: int| 0 <= k < seen.len() && #[trigger] seen[k]@ == s;
                    assert(next[k]@ == s);
                }
                if s == item {
                    assert(next[i as int]@ == s);
                }
            }
        }
        if !contains_str(set, found[i].as_str()) {
            set.push(found[i].clone());
            proof {
                let grown = set@;
                assert(grown == prev.push(grown[prev.len() as int]));
                assert(grown[prev.len() as int]@ == item);
                assert forall|a: int, b: int| 0 <= a < b < grown.len() implies grown[a]@
                    != grown[b]@ by {
                    if b == prev.len() {
                        assert(prev[a]@ == grown[a]@);
                    } else {
                        assert(prev[a] == grown[a] && prev[b] == grown[b]);
                    }
                }
                assert forall|s: Seq<char>| listed(grown, s) <==> (listed(prev, s) || s == item) by {
                    if listed(grown, s) {
                        let k = choose|k: int| 0 <= k < grown.len() && #[trigger] grown[k]@ == s;
                        if k < prev.len() {
                            assert(prev[k]@ == s);
                        }
                    }
                    if listed(prev, s) {
                        let k = choose|k: int| 0 <= k < prev.len() && #[trigger] prev[k]@ == s;
                        assert(grown[k]@ == s);
                    }
                    if s == item {
                        assert(grown[prev.len() as int]@ == s);
                    }
                }
                assert(grown.take(before.len() as int) =~= before);
            }
        }
        proof {
            assert forall|s: Seq<char>| listed(set@, s) <==> (listed(before, s) || listed(next, s)) by {
                assert(listed(next, s) <==> (listed(seen, s) || s == item));
                assert(listed(prev, s) <==> (listed(before, s) || listed(seen, s)));
                if s == item {
                    assert(listed(set@, s));
                }
            }
        }
        i += 1;
    }
    assert(found@.take(found@.len() as int) == found@);
}

/// Some list of `lists` holds `s`.
pub open spec fn listed_in_any(lists: Seq<Vec<String>>, s: Seq<char>) -> bool {
    exists|i: int| 0 <= i < lists.len() && listed(#[trigger] lists[i]@, s)
}

/// The distinct strings of all the lists, each where it is first met.
pub fn union_all(lists: &Vec<Vec<String>>) -> (r: Vec<String>)
    ensures
        distinct(r@),
        forall|s: Seq<char>| #[trigger] listed(r@, s) <==> listed_in_any(lists@, s),
{
    let mut r: Vec<String> = Vec::new();
    let mut i: usize = 0;
    while i < lists.len()
        invariant
            i <= lists@.len(),
            distinct(r@),
            forall|s: Seq<char>|
                #[trigger] listed(r@, s) <==> listed_in_any(lists@.take(i as int), s),
        decreases lists@.len() - i,
    {
        let ghost seen = lists@.take(i as int);
        let ghost next = lists@.take(i + 1);
        proof {
            assert(next == seen.push(lists@[i as int]));
            assert forall|s: Seq<char>| listed_in_any(next, s) <==> (listed_in_any(seen, s) || listed(
                lists@[i as int]@,
                s,
            )) by {
                if listed_in_any(next, s) {
                    let k = choose|k: int| 0 <= k < next.len() && listed(#[trigger] next[k]@, s);
                    if k < i {
                        assert(listed(seen[k]@, s));
                    }
                }
                if listed_in_any(seen, s) {
                    let k = choose|k: int| 0 <= k < seen.len() && listed(#[trigger] seen[k]@, s);
                    assert(listed(next[k]@, s));
                }
                if listed(lists@[i as int]@, s) {
                    assert(listed(next[i as int]@, s));
                }
            }
        }
        let ghost prev = r@;
        add_all(&mut r, &lists[i]);
        proof {
            assert forall|s: Seq<char>| listed(r@, s) <==> listed_in_any(next, s) by {
                assert(listed(r@, s) <==> (listed(prev, s) || listed(lists@[i as int]@, s)));
                assert(listed(prev, s) <==> listed_in_any(seen, s));
                assert(listed_in_any(next, s) <==> (listed_in_any(seen, s) || listed(
                    lists@[i as int]@,
                    s,
                )));
            }
        }
        i += 1;
    }
    assert(lists@.take(lists@.len() as int) == lists@);
    r
}

impl NetworkBlocker {
    #[verifier::type_invariant]
    spec fn inv(&self) -> bool {
        distinct(self.allowed_ips@) && distinct(self.blocked_ips@)
    }

    /// The addresses that an allow-list lets through.
    pub closed spec fn allowed(&self) -> Seq<Seq<char>> {
        views(self.allowed_ips@)
    }

    /// The addresses that a block-list refuses.
    pub closed spec fn blocked(&self) -> Seq<Seq<char>> {
        views(self.blocked_ips@)
    }

    /// The blocking mode.
    pub closed spec fn mode(&self) -> BlockMode {
        self.mode
    }

    /// Whether the rules are loaded.
    pub closed spec fn active(&self) -> bool {
        self.rules_active
    }

    /// A blocker in allow-list mode, with no address and no rules loaded.
    pub fn new() -> (r: Self)
        ensures
            r.allowed().len() == 0,
            r.blocked().len() == 0,
            r.mode() == BlockMode::Allowlist,
            !r.active(),
    {
        NetworkBlocker {
            allowed_ips: Vec::new(),
            blocked_ips: Vec::new(),
            mode: BlockMode::Allowlist,
            rules_active: false,
        }
    }

    /// Set the blocking mode
    pub fn set_mode(&mut self, mode: BlockMode)
        ensures
            final(self).mode() == mode,
            final(self).allowed() == old(self).allowed(),
            final(self).blocked() == old(self).blocked(),
            final(self).active() == old(self).active(),
    {
        proof {
            use_type_invariant(&*self);
        }
        self.mode = mode;
    }

    /// Takes the addresses that the allowed domains resolved to, one list
    /// for each domain and an empty list for a domain that did not resolve:
    /// the allowed addresses become their union, each address once.
    pub fn resolve_allowed_domains(&mut self, resolved: &Vec<Vec<String>>)
        ensures
            forall|s: Seq<char>| #[trigger]
                final(self).allowed().contains(s) <==> listed_in_any(resolved@, s),
            final(self).allowed().no_duplicates(),
            final(self).blocked() == old(self).blocked(),
            final(self).mode() == old(self).mode(),
            final(self).active() == old(self).active(),
    {
        proof {
            use_type_invariant(&*self);
        }
        let ips = union_all(resolved);
        proof {
            lemma_views_of_distinct(ips@);
            assert forall|s: Seq<char>| #[trigger]
                views(ips@).contains(s) <==> listed_in_any(resolved@, s) by {
                assert(listed(ips@, s) <==> listed_in_any(resolved@, s));
            }
        }
        self.allowed_ips = ips;
    }

    /// Takes the addresses that the blocked domains resolved to: the
    /// blocked addresses become their union, each address once.
    pub fn resolve_blocked_domains(&mut self, resolved: &Vec<Vec<String>>)
        ensures
            forall|s: Seq<char>| #[trigger]
                final(self).blocked().contains(s) <==> listed_in_any(resolved@, s),
            final(self).blocked().no_duplicates(),
            final(self).allowed() == old(self).allowed(),
            final(self).mode() == old(self).mode(),
            final(self).active() == old(self).active(),
    {
        proof {
            use_type_invariant(&*self);
        }
        let ips = union_all(resolved);
        proof {
            lemma_views_of_distinct(ips@);
            assert forall|s: Seq<char>| #[trigger]
                views(ips@).contains(s) <==> listed_in_any(resolved@, s) by {
                assert(listed(ips@, s) <==> listed_in_any(resolved@, s));
            }
        }
        self.blocked_ips = ips;
    }

    /// Generate pf rules based on mode
    pub fn generate_rules(&self) -> (rules: String)
        ensures
            rules@ == anchor_rules(self.mode(), self.allowed(), self.blocked()),
    {
        let mut rules = base_rules_text().to_owned();
        match self.mode {
            BlockMode::Allowlist => {
                rules.append(always_allowed_text());
                if self.allowed_ips.len() > 0 {
                    let list = join(&self.allowed_ips, ", ");
                    rules.append("# Allow specific domains\npass out quick proto { tcp, udp } to { ");
                    rules.append(list.as_str());
                    rules.append(" }\n");
                }
                rules.append(
                    "# Block all other outbound traffic\nblock drop out quick proto { tcp, udp } all\n",
                );
                proof {
                    assert(rules@ =~= anchor_rules(self.mode(), self.allowed(), self.blocked()));
                }
            },
            BlockMode::Blocklist => {
                rules.append(distraction_text());
                let ghost head = rules@;
                let ghost all = views(self.blocked_ips@);
                let mut i: usize = 0;
                assert(all.take(0) =~= Seq::<Seq<char>>::empty());
                assert(head + block_rules(all.take(0)) =~= head);
                while i < self.blocked_ips.len()
                    invariant
                        i <= self.blocked_ips@.len(),
                        all == views(self.blocked_ips@),
                        rules@ == head + block_rules(all.take(i as int)),
                    decreases self.blocked_ips@.len() - i,
                {
                    proof {
                        let next = all.take(i + 1);
                        assert(next.drop_last() == all.take(i as int));
                        assert(next.last() == self.blocked_ips@[i as int]@);
                    }
                    let ghost before = rules@;
                    rules.append("block drop out quick proto { tcp, udp } to ");
                    rules.append(self.blocked_ips[i].as_str());
                    rules.append("\n");
                    proof {
                        assert(rules@ =~= head + block_rules(all.take(i + 1)));
                    }
                    i += 1;
                }
                assert(all.take(self.blocked_ips@.len() as int) == all);
                rules.append("# Allow all other outbound traffic\npass out quick all\n");
                proof {
                    assert(rules@ =~= anchor_rules(self.mode(), self.allowed(), self.blocked()));
                }
            },
        }
        rules
    }

    /// Whether there is anything to load: an allow-list with no address to
    /// let through is not put in place.
    pub open spec fn loadable(&self) -> bool {
        !(self.mode() == BlockMode::Allowlist && self.allowed().len() == 0)
    }

    /// The rules to write and load in order to enable blocking, or `None`
    /// where there is nothing to load.
    pub fn enable_blocking(&self) -> (rules: Option<String>)
        ensures
            match rules {
                Some(text) => self.loadable() && text@ == anchor_rules(
                    self.mode(),
                    self.allowed(),
                    self.blocked(),
                ),
                None => !self.loadable(),
            },
    {
        let empty_allowlist = match self.mode {
            BlockMode::Allowlist => self.allowed_ips.len() == 0,
            BlockMode::Blocklist => false,
        };
        if empty_allowlist {
            None
        } else {
            Some(self.generate_rules())
        }
    }

    /// Records whether the rules are loaded now.
    pub fn set_active(&mut self, active: bool)
        ensures
            final(self).active() == active,
            final(self).mode() == old(self).mode(),
            final(self).allowed() == old(self).allowed(),
            final(self).blocked() == old(self).blocked(),
    {
        proof {
            use_type_invariant(&*self);
        }
        self.rules_active = active;
    }

    /// Whether disabling has anything to undo: the anchor is flushed and its
    /// file removed only where rules are loaded.
    pub fn disable_blocking(&self) -> (flush: bool)
        ensures
            flush == self.active(),
    {
        self.rules_active
    }

    /// Check if rules are currently active
    pub fn is_active(&self) -> (r: bool)
        ensures
            r == self.active(),
    {
        self.rules_active
    }
}

impl Default for NetworkBlocker {
    fn default() -> (r: Self)
        ensures
            r.allowed().len() == 0,
            r.blocked().len() == 0,
            r.mode() == BlockMode::Allowlist,
            !r.active(),
    {
        NetworkBlocker::new()
    }
}

/// Distinct strings have distinct views.
pub proof fn lemma_views_of_distinct(list: Seq<String>)
    requires
        distinct(list),
    ensures
        views(list).no_duplicates(),
        forall|s: Seq<char>| #[trigger] views(list).contains(s) <==> listed(list, s),
{
    assert forall|s: Seq<char>| #[trigger] views(list).contains(s) <==> listed(list, s) by {
        if views(list).contains(s) {
            let k = choose|k: int| 0 <= k < views(list).len() && views(list)[k] == s;
            assert(list[k]@ == s);
        }
        if listed(list, s) {
            let k = choose|k: int| 0 <= k < list.len() && #[trigger] list[k]@ == s;
            assert(views(list)[k] == s);
        }
    }
}

/// The lines that hook the anchor into the main packet-filter
/// configuration.
pub open spec fn anchor_lines() -> Seq<char> {
    "\n# Moonstone network blocking\nanchor \"com.moonstone\"\nload anchor \"com.moonstone\" from \"/etc/pf.anchors/com.moonstone\"\n"@
}

/// The configuration to write so that the anchor is hooked in: the present
/// one with the anchor lines added, or `None` where it names the anchor
/// already.
pub fn setup_pf_anchor(pf_conf: &str) -> (r: Option<String>)
    ensures
        match r {
            Some(conf) => find_from(pf_conf@, PF_ANCHOR@, 0) == -1 && conf@ == pf_conf@
                + anchor_lines(),
            None => find_from(pf_conf@, PF_ANCHOR@, 0) >= 0,
        },
{
    let text = chars_of(pf_conf);
    let name = chars_of(PF_ANCHOR);
    match find_in(&text, &name, 0) {
        Some(_) => None,
        None => {
            let mut conf = pf_conf.to_owned();
            conf.append(
                "\n# Moonstone network blocking\nanchor \"com.moonstone\"\nload anchor \"com.moonstone\" from \"/etc/pf.anchors/com.moonstone\"\n",
            );
            Some(conf)
        },
    }
}

} // verus!
