//! The protocol between the agent and its watchdog: one-byte messages over
//! a local socket, and the bookkeeping of heartbeats on the client side.

use vstd::prelude::*;
use vstd::string::*;

verus! {

/// Where the agent listens.
pub const SOCKET_PATH: &'static str = "/tmp/moonstone.sock";

/// Milliseconds between two heartbeats.
pub const HEARTBEAT_INTERVAL_MS: u64 = 500;

/// Milliseconds without a heartbeat after which the agent counts as gone.
pub const HEARTBEAT_TIMEOUT_MS: u64 = 2000;

/// Consecutive failed heartbeats that mean tampering.
pub const MAX_MISSED_HEARTBEATS: u32 = 4;

/// Why talking to the agent failed.
#[derive(Debug, Clone, PartialEq, Eq)]
pub enum IpcError {
    /// The socket could not be reached or written; the text says why.
    Io(String),
    /// The connection timed out.
    Timeout,
    /// Too many heartbeats in a row went unanswered.
    HeartbeatMissed,
}

/// The messages of the protocol.
#[derive(Debug, Clone, Copy, PartialEq, Eq, Structural)]
pub enum Message {
    Heartbeat,
    Shutdown,
    Status,
    EmergencyDisable,
}

/// The byte that stands for a message on the wire.
pub open spec fn opcode(m: Message) -> u8 {
    match m {
        Message::Heartbeat => 0x01,
        Message::Shutdown => 0x02,
        Message::Status => 0x03,
        Message::EmergencyDisable => 0x04,
    }
}

/// The message that a byte stands for, if any.
pub open spec fn message_of(byte: u8) -> Option<Message> {
    if byte == 0x01 {
        Some(Message::Heartbeat)
    } else if byte == 0x02 {
        Some(Message::Shutdown)
    } else if byte == 0x03 {
        Some(Message::Status)
    } else if byte == 0x04 {
        Some(Message::EmergencyDisable)
    } else {
        None
    }
}

impl Message {
    pub fn to_byte(self) -> (b: u8)
        ensures
            b == opcode(self),
    {
        match self {
            Message::Heartbeat => 0x01,
            Message::Shutdown => 0x02,
            Message::Status => 0x03,
            Message::EmergencyDisable => 0x04,
        }
    }

    pub fn from_byte(byte: u8) -> (m: Option<Self>)
        ensures
            m == message_of(byte),
    {
        match byte {
            0x01 => Some(Message::Heartbeat),
            0x02 => Some(Message::Shutdown),
            0x03 => Some(Message::Status),
            0x04 => Some(Message::EmergencyDisable),
            _ => None,
        }
    }
}

/// Every message survives the wire, and the bytes 1 to 4 are the only ones
/// that stand for a message.
pub proof fn lemma_opcodes(m: Message, byte: u8)
    ensures
        message_of(opcode(m)) == Some(m),
        message_of(byte) is Some <==> 1 <= byte <= 4,
        message_of(byte) matches Some(n) ==> opcode(n) == byte,
{
}

/// The path of the socket.
pub fn socket_path() -> (p: String)
    ensures
        p@ == SOCKET_PATH@,
{
    SOCKET_PATH.to_owned()
}

/// Client side - used by watchdog and CLI. It keeps the time of the last
/// heartbeat that went through, on a clock of milliseconds that never runs
/// backwards, and the number of heartbeats that failed since.
#[derive(Debug, Clone, Copy)]
pub struct IpcClient {
    pub last_heartbeat_ms: u64,
    pub consecutive_failures: u32,
}

/// What the heartbeat loop does after one heartbeat.
#[derive(Debug, Clone, PartialEq, Eq)]
pub enum HeartbeatVerdict {
    /// Wait for the next tick.
    Continue,
    /// Stop: the agent does not respond.
    Stop(IpcError),
}

impl IpcClient {
    /// A client that starts its watch at `now_ms`.
    pub fn new(now_ms: u64) -> (c: Self)
        ensures
            c.last_heartbeat_ms == now_ms,
            c.consecutive_failures == 0,
    {
        IpcClient { last_heartbeat_ms: now_ms, consecutive_failures: 0 }
    }

    /// Records the outcome of sending one heartbeat: where it went through,
    /// the time of the last heartbeat becomes `now_ms`; the failure is
    /// handed on.
    pub fn heartbeat(
        &mut self,
        sent: Result<(), IpcError>,
        now_ms: u64,
    ) -> (r: Result<(), IpcError>)
        ensures
            r == sent,
            final(self).consecutive_failures == old(self).consecutive_failures,
            final(self).last_heartbeat_ms == if sent is Ok {
                now_ms
            } else {
                old(self).last_heartbeat_ms
            },
    {
        if sent.is_ok() {
            self.last_heartbeat_ms = now_ms;
        }
        sent
    }

    /// Whether the last heartbeat that went through is less than two
    /// seconds old.
    pub open spec fn alive_at(self, now_ms: u64) -> bool {
        now_ms < self.last_heartbeat_ms || now_ms - self.last_heartbeat_ms < HEARTBEAT_TIMEOUT_MS
    }

    /// Check if we've missed too many heartbeats.
    pub fn is_daemon_alive(&self, now_ms: u64) -> (r: bool)
        ensures
            r == self.alive_at(now_ms),
    {
        now_ms < self.last_heartbeat_ms || now_ms - self.last_heartbeat_ms < HEARTBEAT_TIMEOUT_MS
    }

    /// The failures in a row after one more heartbeat; the count stops at
    /// the largest number it can hold.
    pub open spec fn failures_after(self, sent_ok: bool) -> u32 {
        if sent_ok {
            0
        } else if self.consecutive_failures < u32::MAX {
            (self.consecutive_failures + 1) as u32
        } else {
            self.consecutive_failures
        }
    }

    /// One turn of the heartbeat loop: a heartbeat that went through clears
    /// the count of failures; one that failed adds to it, and the fourth
    /// failure in a row stops the loop with `HeartbeatMissed`.
    pub fn after_heartbeat(
        &mut self,
        sent: Result<(), IpcError>,
        now_ms: u64,
    ) -> (v: HeartbeatVerdict)
        ensures
            final(self).consecutive_failures == old(self).failures_after(sent is Ok),
            final(self).last_heartbeat_ms == if sent is Ok {
                now_ms
            } else {
                old(self).last_heartbeat_ms
            },
            v == if old(self).failures_after(sent is Ok) >= MAX_MISSED_HEARTBEATS {
                HeartbeatVerdict::Stop(IpcError::HeartbeatMissed)
            } else {
                HeartbeatVerdict::Continue
            },
    {
        match self.heartbeat(sent, now_ms) {
            Ok(_) => {
                self.consecutive_failures = 0;
                HeartbeatVerdict::Continue
            },
            Err(_) => {
                if self.consecutive_failures < u32::MAX {
                    self.consecutive_failures = self.consecutive_failures + 1;
                }
                if self.consecutive_failures >= MAX_MISSED_HEARTBEATS {
                    HeartbeatVerdict::Stop(IpcError::HeartbeatMissed)
                } else {
                    HeartbeatVerdict::Continue
                }
            },
        }
    }
}

} // verus!
