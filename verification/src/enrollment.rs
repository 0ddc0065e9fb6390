//! Enrollment identities: the raw identification fields a device reports, and
//! the canonical, kind-tagged identifier they resolve to.

use vstd::prelude::*;
use vstd::string::*;
use crate::text::{join_colon, join_with_colon, opt_str_view, str_eq};

verus! {

/// The user identifier that every Shared iPad user channel reports.
pub const SHARED_IPAD_USER_ID: &'static str = "FFFFFFFF-FFFF-FFFF-FFFF-FFFFFFFFFFFF";

/// Type of MDM enrollment.
#[derive(Debug, Clone, Copy, PartialEq, Eq, Hash, Structural)]
pub enum EnrollType {
    /// Standard device enrollment (UDID-based).
    Device,
    /// User channel on a device.
    User,
    /// User Enrollment device.
    UserEnrollmentDevice,
    /// User channel on a User Enrollment device.
    UserEnrollment,
    /// Shared iPad with the static user identifier.
    SharedIpad,
}

/// Raw enrollment data from check-in messages.
#[derive(Debug, Clone)]
pub struct Enrollment {
    /// Device UDID (legacy enrollments).
    pub udid: Option<String>,
    /// User ID for user-channel enrollments.
    pub user_id: Option<String>,
    /// User short name (Managed Apple ID).
    pub user_short_name: Option<String>,
    /// User long name.
    pub user_long_name: Option<String>,
    /// Enrollment ID for User Enrollment devices.
    pub enrollment_id: Option<String>,
    /// Enrollment User ID for User Enrollment.
    pub enrollment_user_id: Option<String>,
}

/// The identification fields that resolution reads, as plain sequences.
pub struct EnrollmentView {
    pub udid: Option<Seq<char>>,
    pub user_id: Option<Seq<char>>,
    pub enrollment_id: Option<Seq<char>>,
    pub enrollment_user_id: Option<Seq<char>>,
}

/// Resolved enrollment identifier.
#[derive(Debug, Clone, PartialEq, Eq, Hash)]
pub struct EnrollId {
    /// The enrollment type.
    pub enroll_type: EnrollType,
    /// Primary identifier.
    pub id: String,
    /// Parent device ID (for user channels).
    pub parent_id: Option<String>,
}

/// A resolved identifier over plain sequences.
pub struct EnrollIdView {
    pub enroll_type: EnrollType,
    pub id: Seq<char>,
    pub parent_id: Option<Seq<char>>,
}

impl View for Enrollment {
    type V = EnrollmentView;

    open spec fn view(&self) -> EnrollmentView {
        EnrollmentView {
            udid: opt_str_view(self.udid),
            user_id: opt_str_view(self.user_id),
            enrollment_id: opt_str_view(self.enrollment_id),
            enrollment_user_id: opt_str_view(self.enrollment_user_id),
        }
    }
}

impl View for EnrollId {
    type V = EnrollIdView;

    open spec fn view(&self) -> EnrollIdView {
        EnrollIdView {
            enroll_type: self.enroll_type,
            id: self.id@,
            parent_id: opt_str_view(self.parent_id),
        }
    }
}

/// The view of an optional identifier.
pub open spec fn opt_id_view(o: Option<EnrollId>) -> Option<EnrollIdView> {
    match o {
        Some(id) => Some(id@),
        None => None,
    }
}

impl EnrollmentView {
    /// The canonical identifier of these fields. The enrollment identifier
    /// takes precedence over the UDID; a user identifier makes a user channel
    /// whose parent is the device.
    pub open spec fn resolve(self) -> Option<EnrollIdView> {
        if let Some(eid) = self.enrollment_id {
            if let Some(euid) = self.enrollment_user_id {
                Some(
                    EnrollIdView {
                        enroll_type: EnrollType::UserEnrollment,
                        id: join_colon(eid, euid),
                        parent_id: Some(eid),
                    },
                )
            } else {
                Some(
                    EnrollIdView {
                        enroll_type: EnrollType::UserEnrollmentDevice,
                        id: eid,
                        parent_id: None,
                    },
                )
            }
        } else if let Some(udid) = self.udid {
            if let Some(uid) = self.user_id {
                Some(
                    EnrollIdView {
                        enroll_type: if uid == SHARED_IPAD_USER_ID@ {
                            EnrollType::SharedIpad
                        } else {
                            EnrollType::User
                        },
                        id: join_colon(udid, uid),
                        parent_id: Some(udid),
                    },
                )
            } else {
                Some(EnrollIdView { enroll_type: EnrollType::Device, id: udid, parent_id: None })
            }
        } else {
            None
        }
    }
}

impl Default for Enrollment {
    fn default() -> (r: Self)
        ensures
            r.udid is None,
            r.user_id is None,
            r.user_short_name is None,
            r.user_long_name is None,
            r.enrollment_id is None,
            r.enrollment_user_id is None,
    {
        Enrollment {
            udid: None,
            user_id: None,
            user_short_name: None,
            user_long_name: None,
            enrollment_id: None,
            enrollment_user_id: None,
        }
    }
}

impl Enrollment {
    /// Resolve this enrollment to an `EnrollId`, or `None` when it carries
    /// neither an enrollment identifier nor a UDID.
    pub fn resolve(&self) -> (r: Option<EnrollId>)
        ensures
            opt_id_view(r) == self@.resolve(),
    {
        match &self.enrollment_id {
            Some(eid) => {
                match &self.enrollment_user_id {
                    Some(euid) => Some(
                        EnrollId {
                            enroll_type: EnrollType::UserEnrollment,
                            id: join_with_colon(eid.as_str(), euid.as_str()),
                            parent_id: Some(eid.clone()),
                        },
                    ),
                    None => Some(
                        EnrollId {
                            enroll_type: EnrollType::UserEnrollmentDevice,
                            id: eid.clone(),
                            parent_id: None,
                        },
                    ),
                }
            },
            None => {
                match &self.udid {
                    Some(udid) => {
                        match &self.user_id {
                            Some(uid) => {
                                let enroll_type = if str_eq(uid.as_str(), SHARED_IPAD_USER_ID) {
                                    EnrollType::SharedIpad
                                } else {
                                    EnrollType::User
                                };
                                Some(
                                    EnrollId {
                                        enroll_type,
                                        id: join_with_colon(udid.as_str(), uid.as_str()),
                                        parent_id: Some(udid.clone()),
                                    },
                                )
                            },
                            None => Some(
                                EnrollId {
                                    enroll_type: EnrollType::Device,
                                    id: udid.clone(),
                                    parent_id: None,
                                },
                            ),
                        }
                    },
                    None => None,
                }
            },
        }
    }
}

/// Resolution fails exactly when neither an enrollment identifier nor a UDID
/// is present, and otherwise the fields present decide the kind: the table
/// of identity patterns leaves no input out and gives each input one row.
pub proof fn lemma_resolve_total(e: EnrollmentView)
    ensures
        e.resolve() is None <==> (e.enrollment_id is None && e.udid is None),
        e.resolve() is Some ==> {
            let id = e.resolve()->0;
            &&& id.enroll_type == EnrollType::UserEnrollment <==> (e.enrollment_id is Some
                && e.enrollment_user_id is Some)
            &&& id.enroll_type == EnrollType::UserEnrollmentDevice <==> (e.enrollment_id is Some
                && e.enrollment_user_id is None)
            &&& id.enroll_type == EnrollType::SharedIpad <==> (e.enrollment_id is None
                && e.user_id == Some(SHARED_IPAD_USER_ID@))
            &&& id.enroll_type == EnrollType::User <==> (e.enrollment_id is None && e.user_id is Some
                && e.user_id != Some(SHARED_IPAD_USER_ID@))
            &&& id.enroll_type == EnrollType::Device <==> (e.enrollment_id is None
                && e.user_id is None)
            &&& id.parent_id is Some <==> (id.enroll_type != EnrollType::Device && id.enroll_type
                != EnrollType::UserEnrollmentDevice)
        },
{
}

} // verus!
