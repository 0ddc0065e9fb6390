//! The agent's enforcement: which processes to kill, given the block
//! schedule, the configuration and what is running.

use vstd::prelude::*;
use vstd::string::*;
use crate::accessibility::AppInfo;
use crate::config::Config;
use crate::schedule::{blocked_at, Schedule, DAY};
use crate::app_enforcer::{remember, remembered};

verus! {

/// The enforcer of a configuration.
pub struct Enforcer {
    pub config: Config,
    pub schedule: Schedule,
    pub recently_killed: Vec<String>,
}

/// Whether an application is to be killed: it has a bundle identifier that
/// the configuration does not allow.
pub open spec fn is_blocked_app(config: &Config, app: &AppInfo) -> bool {
    app.bundle_id@.len() > 0 && !config.app_allowed(app.bundle_id@)
}

/// The processes of the applications that are to be killed, in order.
pub open spec fn blocked_pids(config: &Config, apps: Seq<AppInfo>) -> Seq<i32> {
    apps.filter(|a: AppInfo| is_blocked_app(config, &a)).map_values(|a: AppInfo| a.pid)
}

/// The processes to kill for a blocked frontmost application: its own
/// first, then every other of the same bundle, in the order found.
pub open spec fn kill_order(front: i32, others: Seq<i32>) -> Seq<i32> {
    seq![front] + others.filter(|p: i32| is_other(front, p))
}

/// `p` is another process than `front`.
pub open spec fn is_other(front: i32, p: i32) -> bool {
    p != front
}

impl Enforcer {
    /// The enforcer of `config`, with the schedule that its periods parse
    /// to.
    pub fn new(config: Config) -> (r: Self)
        ensures
            r.config == config,
            r.schedule@ == config.schedule.blocks@.filter_map(
                |b: crate::config::BlockPeriod| crate::schedule::parsed_block(b),
            ),
            r.recently_killed@.len() == 0,
    {
        let schedule = Schedule::new(&config.schedule);
        Enforcer { config, schedule, recently_killed: Vec::new() }
    }

    /// Single enforcement check, for a schedule that is in a block period or
    /// not and the frontmost application, if it is known. Outside a block
    /// period the memory of kills is emptied. Within one, a frontmost
    /// application that the configuration does not allow is returned, to be
    /// killed, and remembered; the memory holds ten applications at most.
    pub fn enforce_once<'a>(
        &mut self,
        blocked: bool,
        frontmost: Option<&'a AppInfo>,
    ) -> (r: Option<&'a AppInfo>)
        ensures
            final(self).config == old(self).config,
            final(self).schedule == old(self).schedule,
            match frontmost {
                Some(app) if blocked && !old(self).config.app_allowed(app.bundle_id@) => {
                    &&& r == Some(app)
                    &&& remembered(
                        old(self).recently_killed@,
                        final(self).recently_killed@,
                        app.bundle_id@,
                    )
                },
                _ => {
                    &&& r is None
                    &&& if blocked {
                        final(self).recently_killed@ == old(self).recently_killed@
                    } else {
                        final(self).recently_killed@.len() == 0
                    }
                },
            },
    {
        if !blocked {
            self.recently_killed.clear();
            return None;
        }
        let app = match frontmost {
            Some(app) => app,
            None => {
                return None;
            },
        };
        if self.config.is_app_allowed(app.bundle_id.as_str()) {
            return None;
        }
        let _ = remember(&mut self.recently_killed, app.bundle_id.as_str());
        Some(app)
    }

    /// The processes to kill for a blocked frontmost application.
    pub fn kill_list(front: i32, others: &Vec<i32>) -> (pids: Vec<i32>)
        ensures
            pids@ == kill_order(front, others@),
    {
        let ghost keep = |p: i32| is_other(front, p);
        let mut pids: Vec<i32> = Vec::new();
        pids.push(front);
        let mut i: usize = 0;
        proof {
            reveal(Seq::filter);
            assert(others@.take(0).filter(keep) =~= Seq::<i32>::empty());
            assert(pids@ =~= seq![front] + others@.take(0).filter(keep));
        }
        while i < others.len()
            invariant
                i <= others@.len(),
                keep == (|p: i32| is_other(front, p)),
                pids@ == seq![front] + others@.take(i as int).filter(keep),
            decreases others@.len() - i,
        {
            proof {
                assert(others@.take(i + 1) == others@.take(i as int).push(others@[i as int]));
                others@.take(i as int).lemma_filter_push(others@[i as int], keep);
            }
            if others[i] != front {
                pids.push(others[i]);
            }
            assert(pids@ =~= seq![front] + others@.take(i + 1).filter(keep));
            i += 1;
        }
        assert(others@.take(others@.len() as int) == others@);
        pids
    }

    /// The processes to kill on startup: within a block period, those of
    /// every running application that the configuration does not allow;
    /// none outside one.
    pub fn kill_all_blocked(&self, blocked: bool, apps: &Vec<AppInfo>) -> (pids: Vec<i32>)
        ensures
            pids@ == if blocked {
                blocked_pids(&self.config, apps@)
            } else {
                Seq::empty()
            },
    {
        let mut pids: Vec<i32> = Vec::new();
        if !blocked {
            return pids;
        }
        let ghost keep = |a: AppInfo| is_blocked_app(&self.config, &a);
        let ghost pid_of = |a: AppInfo| a.pid;
        let mut i: usize = 0;
        proof {
            reveal(Seq::filter);
            assert(apps@.take(0).filter(keep).map_values(pid_of) =~= Seq::<i32>::empty());
        }
        while i < apps.len()
            invariant
                i <= apps@.len(),
                keep == (|a: AppInfo| is_blocked_app(&self.config, &a)),
                pid_of == (|a: AppInfo| a.pid),
                pids@ == apps@.take(i as int).filter(keep).map_values(pid_of),
            decreases apps@.len() - i,
        {
            let app = &apps[i];
            proof {
                assert(apps@.take(i + 1) == apps@.take(i as int).push(*app));
                apps@.take(i as int).lemma_filter_push(*app, keep);
            }
            if !self.config.is_app_allowed(app.bundle_id.as_str()) && !app.bundle_id.as_str().is_empty() {
                proof {
                    let kept = apps@.take(i as int).filter(keep);
                    assert(kept.push(*app).map_values(pid_of) =~= kept.map_values(pid_of).push(
                        app.pid,
                    ));
                }
                pids.push(app.pid);
            }
            i += 1;
        }
        assert(apps@.take(apps@.len() as int) == apps@);
        pids
    }

    /// Check if currently in a block period: the answer of the schedule for
    /// one reading of the local clock.
    pub fn is_blocked(&self) -> (r: bool)
        ensures
            exists|t: u32| t < DAY && r == #[trigger] blocked_at(self.schedule@, t),
    {
        self.schedule.is_blocked()
    }

    /// Reload configuration
    pub fn reload_config(&mut self, config: Config)
        ensures
            final(self).config == config,
            final(self).schedule@ == config.schedule.blocks@.filter_map(
                |b: crate::config::BlockPeriod| crate::schedule::parsed_block(b),
            ),
            final(self).recently_killed == old(self).recently_killed,
    {
        self.schedule = Schedule::new(&config.schedule);
        self.config = config;
    }
}

/// A system essential is never handed out to be killed, whatever the
/// configuration says and whether or not a block period holds: neither as
/// the frontmost application nor among the running ones.
pub proof fn lemma_essentials_survive(config: &Config, app: AppInfo, apps: Seq<AppInfo>)
    requires
        crate::policy::is_system_essential(app.bundle_id@),
    ensures
        config.app_allowed(app.bundle_id@),
        !is_blocked_app(config, &app),
        !apps.filter(|a: AppInfo| is_blocked_app(config, &a)).contains(app),
{
    let keep = |a: AppInfo| is_blocked_app(config, &a);
    if apps.filter(keep).contains(app) {
        let k = choose|k: int| 0 <= k < apps.filter(keep).len() && apps.filter(keep)[k] == app;
        apps.lemma_filter_pred(keep, k);
    }
}

} // verus!
