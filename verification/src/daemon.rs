//! The agent's main loop, as decisions: what a message from the socket and
//! what a tick of the clock lead to.

use vstd::prelude::*;
use crate::ipc::Message;

verus! {

/// What the loop keeps between two events.
#[derive(Debug, Clone, Copy, PartialEq, Eq, Structural)]
pub struct Daemon {
    /// Enforcement is suspended by an emergency disable.
    pub emergency_disabled: bool,
    /// No shutdown was asked for.
    pub running: bool,
}

/// What is to be done about the packet-filter rules.
#[derive(Debug, Clone, Copy, PartialEq, Eq, Structural)]
pub enum NetworkPlan {
    Keep,
    Enable,
    Disable,
}

/// What one tick asks for.
#[derive(Debug, Clone, Copy, PartialEq, Eq, Structural)]
pub struct TickPlan {
    /// Leave the loop.
    pub stop: bool,
    /// Run the application enforcement.
    pub enforce: bool,
    pub network: NetworkPlan,
}

/// The packet-filter rules follow the schedule: loaded within a block
/// period, flushed outside.
pub open spec fn network_plan(blocked: bool, network_active: bool) -> NetworkPlan {
    if blocked && !network_active {
        NetworkPlan::Enable
    } else if !blocked && network_active {
        NetworkPlan::Disable
    } else {
        NetworkPlan::Keep
    }
}

impl Daemon {
    /// The daemon after a message. `Shutdown` ends the loop at the next
    /// tick; `EmergencyDisable` suspends enforcement; `Heartbeat` and
    /// `Status` change nothing.
    pub open spec fn after_message(self, msg: Message) -> Daemon {
        match msg {
            Message::Heartbeat => self,
            Message::Status => self,
            Message::Shutdown => Daemon { running: false, ..self },
            Message::EmergencyDisable => Daemon { emergency_disabled: true, ..self },
        }
    }

    /// The daemon after a tick. While enforcement is suspended, the first
    /// tick outside a block period lifts the suspension.
    pub open spec fn after_tick(self, blocked: bool) -> Daemon {
        if self.running && self.emergency_disabled && !blocked {
            Daemon { emergency_disabled: false, ..self }
        } else {
            self
        }
    }

    /// What a tick asks for: to stop once a shutdown was asked for; nothing
    /// while enforcement is suspended; otherwise the application
    /// enforcement, and the packet-filter rules brought in line with the
    /// schedule.
    pub open spec fn plan(self, blocked: bool, network_active: bool) -> TickPlan {
        if !self.running {
            TickPlan { stop: true, enforce: false, network: NetworkPlan::Keep }
        } else if self.emergency_disabled {
            TickPlan { stop: false, enforce: false, network: NetworkPlan::Keep }
        } else {
            TickPlan { stop: false, enforce: true, network: network_plan(blocked, network_active) }
        }
    }

    /// A daemon that runs and enforces.
    pub fn new() -> (d: Self)
        ensures
            d == (Daemon { emergency_disabled: false, running: true }),
    {
        Daemon { emergency_disabled: false, running: true }
    }

    /// Takes in a message from the socket, and says whether the
    /// packet-filter rules are to be flushed at once, which an emergency
    /// disable asks for.
    pub fn on_message(&mut self, msg: Message) -> (flush: bool)
        ensures
            *final(self) == old(self).after_message(msg),
            flush == (msg == Message::EmergencyDisable),
    {
        match msg {
            Message::Heartbeat => false,
            Message::Status => false,
            Message::Shutdown => {
                self.running = false;
                false
            },
            Message::EmergencyDisable => {
                self.emergency_disabled = true;
                true
            },
        }
    }

    /// Takes in a tick, for a schedule that is in a block period or not and
    /// packet-filter rules that are loaded or not.
    pub fn on_tick(&mut self, blocked: bool, network_active: bool) -> (plan: TickPlan)
        ensures
            plan == old(self).plan(blocked, network_active),
            *final(self) == old(self).after_tick(blocked),
    {
        if !self.running {
            return TickPlan { stop: true, enforce: false, network: NetworkPlan::Keep };
        }
        if self.emergency_disabled {
            if !blocked {
                self.emergency_disabled = false;
            }
            return TickPlan { stop: false, enforce: false, network: NetworkPlan::Keep };
        }
        let network = if blocked && !network_active {
            NetworkPlan::Enable
        } else if !blocked && network_active {
            NetworkPlan::Disable
        } else {
            NetworkPlan::Keep
        };
        TickPlan { stop: false, enforce: true, network }
    }
}

/// An emergency disable gives one session of relief: enforcement stays
/// suspended through the block period it was asked in, the first tick
/// outside a block period lifts the suspension, and from then on every tick
/// enforces again.
pub proof fn lemma_single_relief(d: Daemon, network_active: bool)
    requires
        d.running,
    ensures
        ({
            let disabled = d.after_message(Message::EmergencyDisable);
            &&& !disabled.plan(true, network_active).enforce
            &&& disabled.after_tick(true) == disabled
            &&& !disabled.after_tick(false).emergency_disabled
            &&& disabled.after_tick(false).plan(true, network_active).enforce
            &&& disabled.after_tick(false).after_tick(true) == disabled.after_tick(false)
        }),
{
}

} // verus!
