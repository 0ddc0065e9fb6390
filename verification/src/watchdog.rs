//! The watchdog: it counts the heartbeats that the agent misses, and answers
//! tampering with the configured action, once.

use vstd::prelude::*;
use crate::config::TamperResponse;
use crate::ipc::{HeartbeatVerdict, IpcClient, IpcError, MAX_MISSED_HEARTBEATS};

verus! {

/// A command of the operating system: a program and its arguments.
#[derive(Debug, Clone, PartialEq, Eq)]
pub struct SystemCommand {
    pub program: String,
    pub args: Vec<String>,
}

/// The program that carries out a tamper action.
pub open spec fn action_program(action: TamperResponse) -> Seq<char> {
    match action {
        TamperResponse::Sleep => "pmset"@,
        TamperResponse::Shutdown => "shutdown"@,
        TamperResponse::Lock => "pmset"@,
    }
}

/// The arguments that a tamper action is carried out with.
pub open spec fn action_args(action: TamperResponse) -> Seq<Seq<char>> {
    match action {
        TamperResponse::Sleep => seq!["sleepnow"@],
        TamperResponse::Shutdown => seq!["-h"@, "now"@],
        TamperResponse::Lock => seq!["displaysleepnow"@],
    }
}

/// The command that carries out a tamper action: putting the system to
/// sleep, shutting it down, or locking the display.
pub fn action_command(action: TamperResponse) -> (c: SystemCommand)
    ensures
        c.program@ == action_program(action),
        crate::text::views(c.args@) == action_args(action),
{
    let c = match action {
        TamperResponse::Sleep => SystemCommand {
            program: "pmset".to_owned(),
            args: vec!["sleepnow".to_owned()],
        },
        TamperResponse::Shutdown => SystemCommand {
            program: "shutdown".to_owned(),
            args: vec!["-h".to_owned(), "now".to_owned()],
        },
        TamperResponse::Lock => SystemCommand {
            program: "pmset".to_owned(),
            args: vec!["displaysleepnow".to_owned()],
        },
    };
    assert(crate::text::views(c.args@) =~= action_args(action));
    c
}

/// The action to fall back on when the configured one could not be
/// started: locking, unless locking itself was the one that failed.
pub open spec fn fallback_of(response: TamperResponse) -> Option<TamperResponse> {
    match response {
        TamperResponse::Lock => None,
        _ => Some(TamperResponse::Lock),
    }
}

/// What to do after the configured action was tried: nothing where it
/// started, the fallback where it did not.
pub fn fallback_action(response: TamperResponse, started: bool) -> (r: Option<TamperResponse>)
    ensures
        r == if started {
            None
        } else {
            fallback_of(response)
        },
{
    if started {
        return None;
    }
    match response {
        TamperResponse::Lock => None,
        _ => Some(TamperResponse::Lock),
    }
}

/// Where the watchdog stands.
#[derive(Debug, Clone, Copy, PartialEq, Eq, Structural)]
pub enum WatchState {
    /// The agent is being monitored.
    Monitoring,
    /// Tampering was detected and answered.
    Tripped,
    /// The watchdog was told to shut down.
    Stopped,
}

/// What the watchdog does next.
#[derive(Debug, Clone, Copy, PartialEq, Eq, Structural)]
pub enum WatchStep {
    /// Wait for the next tick and send a heartbeat.
    Wait,
    /// Carry out the action, then end.
    Respond(TamperResponse),
    /// End without doing anything.
    End,
}

/// The watchdog.
#[derive(Debug, Clone, Copy)]
pub struct Watchdog {
    pub client: IpcClient,
    pub on_tamper: TamperResponse,
    pub state: WatchState,
}

impl Watchdog {
    /// A watchdog that starts monitoring at `now_ms`.
    pub fn new(on_tamper: TamperResponse, now_ms: u64) -> (w: Self)
        ensures
            w.state == WatchState::Monitoring,
            w.on_tamper == on_tamper,
            w.client.consecutive_failures == 0,
            w.client.last_heartbeat_ms == now_ms,
    {
        Watchdog { client: IpcClient::new(now_ms), on_tamper, state: WatchState::Monitoring }
    }

    /// The watchdog after one heartbeat was tried, and what it does next.
    /// While it monitors: a request to shut down ends it; the fourth failed
    /// heartbeat in a row trips it, and the configured action is the
    /// response; anything else makes it wait for the next tick. Once tripped
    /// or stopped it only ends.
    pub open spec fn step(self, sent_ok: bool, shutting_down: bool) -> (WatchState, WatchStep) {
        if self.state != WatchState::Monitoring {
            (self.state, WatchStep::End)
        } else if shutting_down {
            (WatchState::Stopped, WatchStep::End)
        } else if self.client.failures_after(sent_ok) >= MAX_MISSED_HEARTBEATS {
            (WatchState::Tripped, WatchStep::Respond(self.on_tamper))
        } else {
            (WatchState::Monitoring, WatchStep::Wait)
        }
    }

    /// Takes in the outcome of one heartbeat.
    pub fn on_heartbeat(
        &mut self,
        sent: Result<(), IpcError>,
        now_ms: u64,
        shutting_down: bool,
    ) -> (r: WatchStep)
        ensures
            final(self).on_tamper == old(self).on_tamper,
            (final(self).state, r) == old(self).step(sent is Ok, shutting_down),
            old(self).state == WatchState::Monitoring && !shutting_down ==> final(self).client.consecutive_failures
                == old(self).client.failures_after(sent is Ok),
    {
        match self.state {
            WatchState::Monitoring => {},
            _ => {
                return WatchStep::End;
            },
        }
        if shutting_down {
            self.state = WatchState::Stopped;
            return WatchStep::End;
        }
        match self.client.after_heartbeat(sent, now_ms) {
            HeartbeatVerdict::Continue => WatchStep::Wait,
            HeartbeatVerdict::Stop(_) => {
                self.state = WatchState::Tripped;
                WatchStep::Respond(self.on_tamper)
            },
        }
    }
}

/// The state after a run of heartbeats, none of them under a request to
/// shut down.
pub open spec fn after_run(w: Watchdog, outcomes: Seq<bool>) -> Watchdog
    decreases outcomes.len(),
{
    if outcomes.len() == 0 {
        w
    } else {
        let before = after_run(w, outcomes.drop_last());
        let (state, _) = before.step(outcomes.last(), false);
        Watchdog {
            state,
            client: IpcClient {
                consecutive_failures: if before.state == WatchState::Monitoring {
                    before.client.failures_after(outcomes.last())
                } else {
                    before.client.consecutive_failures
                },
                ..before.client
            },
            ..before
        }
    }
}

/// The number of responses that a run of heartbeats draws.
pub open spec fn responses(w: Watchdog, outcomes: Seq<bool>) -> nat
    decreases outcomes.len(),
{
    if outcomes.len() == 0 {
        0
    } else {
        let before = after_run(w, outcomes.drop_last());
        let (_, step) = before.step(outcomes.last(), false);
        responses(w, outcomes.drop_last()) + if step is Respond {
            1nat
        } else {
            0nat
        }
    }
}

/// The watchdog responds at most once, whatever the heartbeats do: it has
/// responded exactly when it is tripped.
pub proof fn lemma_responds_once(w: Watchdog, outcomes: Seq<bool>)
    requires
        w.state == WatchState::Monitoring,
    ensures
        after_run(w, outcomes).state != WatchState::Stopped,
        responses(w, outcomes) == if after_run(w, outcomes).state == WatchState::Tripped {
            1nat
        } else {
            0nat
        },
    decreases outcomes.len(),
{
    if outcomes.len() > 0 {
        lemma_responds_once(w, outcomes.drop_last());
    }
}

/// Four failed heartbeats in a row trip a monitoring watchdog, and the
/// response is the configured action.
pub proof fn lemma_four_failures_trip(w: Watchdog)
    requires
        w.state == WatchState::Monitoring,
    ensures
        after_run(w, seq![false, false, false, false]).state == WatchState::Tripped,
        responses(w, seq![false, false, false, false]) == 1,
{
    let four = seq![false, false, false, false];
    let three = seq![false, false, false];
    let two = seq![false, false];
    let one = seq![false];
    assert(four.drop_last() =~= three);
    assert(three.drop_last() =~= two);
    assert(two.drop_last() =~= one);
    assert(one.drop_last() =~= Seq::<bool>::empty());
    reveal_with_fuel(after_run, 5);
    reveal_with_fuel(responses, 5);
    lemma_responds_once(w, four);
    let a1 = after_run(w, one);
    let a2 = after_run(w, two);
    let a3 = after_run(w, three);
    assert(a1.state == WatchState::Monitoring ==> a1.client.consecutive_failures >= 1);
    assert(a2.state == WatchState::Monitoring ==> a2.client.consecutive_failures >= 2);
    assert(a3.state == WatchState::Monitoring ==> a3.client.consecutive_failures >= 3);
}

} // verus!
