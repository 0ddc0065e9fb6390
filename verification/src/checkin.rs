//! MDM check-in message types.

use vstd::prelude::*;
use crate::enrollment::{EnrollIdView, Enrollment};

verus! {

/// Check-in message types from devices.
#[derive(Debug, Clone)]
pub enum CheckinMessage {
    /// Initial device authentication.
    Authenticate(Authenticate),
    /// Push token update (enrollment complete).
    TokenUpdate(TokenUpdate),
    /// Device unenrollment.
    CheckOut(CheckOut),
    /// User authentication challenge.
    UserAuthenticate(UserAuthenticate),
    /// Set bootstrap token.
    SetBootstrapToken(SetBootstrapToken),
    /// Get bootstrap token.
    GetBootstrapToken(GetBootstrapToken),
    /// Declarative Management.
    DeclarativeManagement(DeclarativeManagement),
    /// Get token for services.
    GetToken(GetToken),
}

/// Authenticate message - initial device identity.
#[derive(Debug, Clone)]
pub struct Authenticate {
    /// Enrollment identification.
    pub enrollment: Enrollment,
    /// Device topic for push notifications.
    pub topic: String,
    /// Build version.
    pub build_version: Option<String>,
    /// OS version.
    pub os_version: Option<String>,
    /// Product name.
    pub product_name: Option<String>,
    /// Serial number.
    pub serial_number: Option<String>,
    /// Device name.
    pub device_name: Option<String>,
    /// Model.
    pub model: Option<String>,
    /// Model name.
    pub model_name: Option<String>,
    /// Raw message for storage.
    pub raw: Vec<u8>,
}

/// TokenUpdate message - push token registration.
#[derive(Debug, Clone)]
pub struct TokenUpdate {
    /// Enrollment identification.
    pub enrollment: Enrollment,
    /// Device topic for push notifications.
    pub topic: String,
    /// Push token.
    pub token: Vec<u8>,
    /// Push magic string.
    pub push_magic: String,
    /// Unlock token (optional).
    pub unlock_token: Option<Vec<u8>>,
    /// Awaiting configuration (DEP).
    pub awaiting_configuration: bool,
    /// Raw message for storage.
    pub raw: Vec<u8>,
}

/// CheckOut message - device unenrollment.
#[derive(Debug, Clone)]
pub struct CheckOut {
    /// Enrollment identification.
    pub enrollment: Enrollment,
    /// Device topic.
    pub topic: String,
    /// Raw message for storage.
    pub raw: Vec<u8>,
}

/// UserAuthenticate message - user identity challenge.
#[derive(Debug, Clone)]
pub struct UserAuthenticate {
    /// Enrollment identification.
    pub enrollment: Enrollment,
    /// Digest response (optional).
    pub digest_response: Option<String>,
    /// Raw message for storage.
    pub raw: Vec<u8>,
}

/// SetBootstrapToken message.
#[derive(Debug, Clone)]
pub struct SetBootstrapToken {
    /// Enrollment identification.
    pub enrollment: Enrollment,
    /// Bootstrap token.
    pub bootstrap_token: Vec<u8>,
    /// Raw message for storage.
    pub raw: Vec<u8>,
}

/// GetBootstrapToken message.
#[derive(Debug, Clone)]
pub struct GetBootstrapToken {
    /// Enrollment identification.
    pub enrollment: Enrollment,
    /// Raw message for storage.
    pub raw: Vec<u8>,
}

/// Bootstrap token response.
#[derive(Debug, Clone)]
pub struct BootstrapTokenResponse {
    /// Bootstrap token.
    pub bootstrap_token: Vec<u8>,
}

/// DeclarativeManagement message.
#[derive(Debug, Clone)]
pub struct DeclarativeManagement {
    /// Enrollment identification.
    pub enrollment: Enrollment,
    /// DDM endpoint being accessed.
    pub endpoint: Option<String>,
    /// DDM data payload.
    pub data: Option<Vec<u8>>,
    /// Raw message for storage.
    pub raw: Vec<u8>,
}

/// GetToken message - token exchange for services.
#[derive(Debug, Clone)]
pub struct GetToken {
    /// Enrollment identification.
    pub enrollment: Enrollment,
    /// Token service type.
    pub token_service_type: String,
    /// Raw message for storage.
    pub raw: Vec<u8>,
}

/// GetToken response.
#[derive(Debug, Clone)]
pub struct GetTokenResponse {
    /// Token data.
    pub token_data: Vec<u8>,
}

impl CheckinMessage {
    /// The identification fields that the message carries.
    pub open spec fn spec_enrollment(self) -> Enrollment {
        match self {
            CheckinMessage::Authenticate(m) => m.enrollment,
            CheckinMessage::TokenUpdate(m) => m.enrollment,
            CheckinMessage::CheckOut(m) => m.enrollment,
            CheckinMessage::UserAuthenticate(m) => m.enrollment,
            CheckinMessage::SetBootstrapToken(m) => m.enrollment,
            CheckinMessage::GetBootstrapToken(m) => m.enrollment,
            CheckinMessage::DeclarativeManagement(m) => m.enrollment,
            CheckinMessage::GetToken(m) => m.enrollment,
        }
    }

    /// The identification fields that the message carries.
    pub fn enrollment(&self) -> (e: &Enrollment)
        ensures
            *e == self.spec_enrollment(),
    {
        match self {
            CheckinMessage::Authenticate(m) => &m.enrollment,
            CheckinMessage::TokenUpdate(m) => &m.enrollment,
            CheckinMessage::CheckOut(m) => &m.enrollment,
            CheckinMessage::UserAuthenticate(m) => &m.enrollment,
            CheckinMessage::SetBootstrapToken(m) => &m.enrollment,
            CheckinMessage::GetBootstrapToken(m) => &m.enrollment,
            CheckinMessage::DeclarativeManagement(m) => &m.enrollment,
            CheckinMessage::GetToken(m) => &m.enrollment,
        }
    }

    /// The identity that the message's fields resolve to.
    pub open spec fn spec_enroll_id(self) -> Option<EnrollIdView> {
        self.spec_enrollment()@.resolve()
    }
}

} // verus!
