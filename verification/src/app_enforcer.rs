//! App enforcement: whether the frontmost application has to go.

use vstd::prelude::*;
use vstd::string::*;
use crate::policy::FocusPolicy;
use crate::text::{contains_str, listed};

verus! {

/// The bundle identifiers that are remembered as killed, before the memory
/// is emptied.
pub const RECENTLY_KILLED_LIMIT: usize = 10;

/// App enforcer that kills disallowed apps.
#[derive(Debug, Clone)]
pub struct AppEnforcer {
    /// Recently killed bundle IDs (to avoid spam).
    pub recently_killed: Vec<String>,
}

/// What one round of enforcement asks for.
#[derive(Debug, Clone, PartialEq, Eq)]
pub enum Enforcement {
    /// Nothing is to be done.
    Idle,
    /// Every process of the application is to be killed. `announce` says
    /// whether the kill is worth a log line: it is not for an application
    /// that was killed recently.
    Kill { bundle_id: String, announce: bool },
}

/// The application that has to go: the frontmost one, while the schedule is
/// active, where the policy does not permit it.
pub open spec fn offender(
    policy: &FocusPolicy,
    active: bool,
    frontmost: Option<Seq<char>>,
) -> Option<Seq<char>> {
    match frontmost {
        Some(bundle_id) => if active && !policy.apps.permits(bundle_id) {
            Some(bundle_id)
        } else {
            None
        },
        None => None,
    }
}

/// The memory of recent kills after `bundle_id` was killed: it is added
/// where it is new, and the memory is emptied once it holds more than ten.
pub open spec fn remembered(before: Seq<String>, after: Seq<String>, bundle_id: Seq<char>) -> bool {
    let added = if listed(before, bundle_id) {
        before.len()
    } else {
        before.len() + 1
    };
    if added > RECENTLY_KILLED_LIMIT {
        after.len() == 0
    } else {
        &&& after.len() == added
        &&& after.take(before.len() as int) == before
        &&& listed(after, bundle_id)
    }
}

impl AppEnforcer {
    /// Create a new app enforcer.
    pub fn new() -> (r: Self)
        ensures
            r.recently_killed@.len() == 0,
    {
        AppEnforcer { recently_killed: Vec::new() }
    }

    /// One round of enforcement, for a schedule that is `active` or not and
    /// the bundle identifier of the frontmost application, if it is known.
    /// Outside the schedule the memory of recent kills is emptied and
    /// nothing is killed. Within it, an application that the policy does not
    /// permit is killed, each time it is found in front.
    pub fn enforce(
        &mut self,
        policy: &FocusPolicy,
        active: bool,
        frontmost: Option<&str>,
    ) -> (r: Enforcement)
        ensures
            match offender(
                policy,
                active,
                match frontmost {
                    Some(b) => Some(b@),
                    None => None,
                },
            ) {
                Some(bundle_id) => {
                    &&& r matches Enforcement::Kill { bundle_id: b, announce }
                    &&& b@ == bundle_id
                    &&& announce == !listed(old(self).recently_killed@, bundle_id)
                    &&& remembered(old(self).recently_killed@, final(self).recently_killed@, bundle_id)
                },
                None => {
                    &&& r matches Enforcement::Idle
                    &&& if active {
                        final(self).recently_killed@ == old(self).recently_killed@
                    } else {
                        final(self).recently_killed@.len() == 0
                    }
                },
            },
    {
        if !active {
            self.recently_killed.clear();
            return Enforcement::Idle;
        }
        let bundle_id = match frontmost {
            Some(b) => b,
            None => {
                return Enforcement::Idle;
            },
        };
        if policy.apps.is_allowed(bundle_id) {
            return Enforcement::Idle;
        }
        let announce = self.kill_app(bundle_id);
        Enforcement::Kill { bundle_id: bundle_id.to_owned(), announce }
    }

    /// Remembers that `bundle_id` was killed, and says whether it was not
    /// remembered before.
    pub fn kill_app(&mut self, bundle_id: &str) -> (fresh: bool)
        ensures
            fresh == !listed(old(self).recently_killed@, bundle_id@),
            remembered(old(self).recently_killed@, final(self).recently_killed@, bundle_id@),
    {
        remember(&mut self.recently_killed, bundle_id)
    }
}

/// Adds `bundle_id` to the memory of recent kills, and says whether it was
/// not there before.
pub fn remember(recently_killed: &mut Vec<String>, bundle_id: &str) -> (fresh: bool)
    ensures
        fresh == !listed(old(recently_killed)@, bundle_id@),
        remembered(old(recently_killed)@, final(recently_killed)@, bundle_id@),
{
    let ghost before = recently_killed@;
    let known = contains_str(recently_killed, bundle_id);
    if !known {
        recently_killed.push(bundle_id.to_owned());
        proof {
            assert(recently_killed@[before.len() as int]@ == bundle_id@);
            assert(recently_killed@.take(before.len() as int) =~= before);
        }
    } else {
        assert(recently_killed@.take(before.len() as int) =~= before);
    }
    if recently_killed.len() > RECENTLY_KILLED_LIMIT {
        recently_killed.clear();
    }
    !known
}

impl Default for AppEnforcer {
    fn default() -> (r: Self)
        ensures
            r.recently_killed@.len() == 0,
    {
        AppEnforcer::new()
    }
}

/// A system essential is never killed, whatever the policy and the
/// schedule.
pub proof fn lemma_essentials_survive(policy: &FocusPolicy, active: bool, bundle_id: Seq<char>)
    requires
        crate::policy::is_system_essential(bundle_id),
    ensures
        offender(policy, active, Some(bundle_id)) is None,
{
}

} // verus!
