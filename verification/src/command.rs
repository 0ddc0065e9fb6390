//! MDM command types.

use vstd::prelude::*;
use vstd::string::*;
use crate::enrollment::Enrollment;

verus! {

/// Command results reported by device.
#[derive(Debug, Clone)]
pub struct CommandResults {
    /// Enrollment identification.
    pub enrollment: Enrollment,
    /// Command UUID being reported.
    pub command_uuid: String,
    /// Status of command execution.
    pub status: CommandStatus,
    /// Error chain (if failed).
    pub error_chain: Vec<ErrorChainItem>,
    /// Raw message for storage.
    pub raw: Vec<u8>,
}

/// Command execution status.
#[derive(Debug, Clone, Copy, PartialEq, Eq, Structural)]
pub enum CommandStatus {
    /// Command executed successfully.
    Acknowledged,
    /// Command failed.
    Error,
    /// Command format error.
    CommandFormatError,
    /// Device is busy, try later.
    NotNow,
    /// Idle (no command was pending).
    Idle,
}

/// The name a status goes by on the wire and in storage.
pub open spec fn status_name(s: CommandStatus) -> Seq<char> {
    match s {
        CommandStatus::Acknowledged => "Acknowledged"@,
        CommandStatus::Error => "Error"@,
        CommandStatus::CommandFormatError => "CommandFormatError"@,
        CommandStatus::NotNow => "NotNow"@,
        CommandStatus::Idle => "Idle"@,
    }
}

impl CommandStatus {
    /// The status's name.
    pub fn to_string(&self) -> (s: String)
        ensures
            s@ == status_name(*self),
    {
        match self {
            CommandStatus::Acknowledged => "Acknowledged".to_owned(),
            CommandStatus::Error => "Error".to_owned(),
            CommandStatus::CommandFormatError => "CommandFormatError".to_owned(),
            CommandStatus::NotNow => "NotNow".to_owned(),
            CommandStatus::Idle => "Idle".to_owned(),
        }
    }
}

/// Error chain item from device.
#[derive(Debug, Clone)]
pub struct ErrorChainItem {
    /// Error code.
    pub error_code: i32,
    /// Error domain.
    pub error_domain: String,
    /// Localized description.
    pub localized_description: Option<String>,
    /// US English description.
    pub us_english_description: Option<String>,
}

/// Queued command in storage.
#[derive(Debug, Clone)]
pub struct QueuedCommand {
    /// Command UUID.
    pub uuid: String,
    /// Raw command plist.
    pub command: Vec<u8>,
    /// When the command was queued, in microseconds since the Unix epoch.
    pub created_at: i64,
}

/// A queued command over plain sequences.
pub struct QueuedCommandView {
    pub uuid: Seq<char>,
    pub command: Seq<u8>,
    pub created_at: i64,
}

impl View for QueuedCommand {
    type V = QueuedCommandView;

    open spec fn view(&self) -> QueuedCommandView {
        QueuedCommandView { uuid: self.uuid@, command: self.command@, created_at: self.created_at }
    }
}

/// The view of an optional queued command.
pub open spec fn opt_queued_view(o: Option<QueuedCommand>) -> Option<QueuedCommandView> {
    match o {
        Some(q) => Some(q@),
        None => None,
    }
}

} // verus!
