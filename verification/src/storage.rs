//! The store's model and capabilities.
//!
//! The model is the logical content of five tables: enrollments, queued
//! commands, bootstrap tokens, push certificates and certificate bindings.
//! Every operation of a capability is a total function on that model; an
//! implementation either applies it or fails and leaves the model as it was.

use vstd::prelude::*;
use crate::checkin::{Authenticate, CheckOut, TokenUpdate};
use crate::command::{opt_queued_view, CommandResults, CommandStatus, QueuedCommand, QueuedCommandView};
use crate::enrollment::{EnrollId, EnrollIdView, EnrollType};
use crate::error::StoreError;
use crate::push::{PushInfo, PushInfoView};
use crate::text::{opt_bytes_view, views};

verus! {

/// Where a queued command stands.
#[derive(Debug, Clone, Copy, PartialEq, Eq, Structural)]
pub enum QueueStatus {
    /// No result has been reported for it.
    Pending,
    Acknowledged,
    Error,
    CommandFormatError,
    NotNow,
    Idle,
}

/// The queue status that a reported command status leaves a row in.
pub open spec fn reported_status(s: CommandStatus) -> QueueStatus {
    match s {
        CommandStatus::Acknowledged => QueueStatus::Acknowledged,
        CommandStatus::Error => QueueStatus::Error,
        CommandStatus::CommandFormatError => QueueStatus::CommandFormatError,
        CommandStatus::NotNow => QueueStatus::NotNow,
        CommandStatus::Idle => QueueStatus::Idle,
    }
}

/// What the store holds of one enrollment.
pub struct EnrollmentRecord {
    pub enroll_type: EnrollType,
    pub parent_id: Option<Seq<char>>,
    /// APNs subject.
    pub topic: Seq<char>,
    pub push_magic: Option<Seq<char>>,
    pub push_token: Option<Seq<u8>>,
    pub disabled: bool,
    /// The last `Authenticate` message as received.
    pub authenticate_raw: Option<Seq<u8>>,
    /// The last `TokenUpdate` message as received.
    pub token_update_raw: Option<Seq<u8>>,
}

/// One row of the command queue.
pub struct CommandRecord {
    pub enrollment_id: Seq<char>,
    pub uuid: Seq<char>,
    pub command: Seq<u8>,
    pub status: QueueStatus,
    /// Whether the command has been handed to the device.
    pub dispatched: bool,
    pub result: Option<Seq<u8>>,
    pub created_at: i64,
}

/// A push certificate and its key, both PEM.
pub struct PushCertRecord {
    pub cert_pem: Seq<char>,
    pub key_pem: Seq<char>,
}

/// The logical content of the store. The command rows stand in the order in
/// which they were queued.
#[verifier::ext_equal]
pub struct StoreState {
    pub enrollments: Map<Seq<char>, EnrollmentRecord>,
    pub commands: Seq<CommandRecord>,
    pub bootstrap_tokens: Map<Seq<char>, Seq<u8>>,
    pub push_certs: Map<Seq<char>, PushCertRecord>,
    pub cert_auth: Set<(Seq<char>, Seq<u8>)>,
}

/// A row that belongs to `id` and may still be handed out: pending, and not
/// dispatched yet.
pub open spec fn deliverable(c: CommandRecord, id: Seq<char>) -> bool {
    c.enrollment_id == id && c.status == QueueStatus::Pending && !c.dispatched
}

/// The index of the first deliverable row of `id`, or the number of rows
/// where there is none.
pub open spec fn first_deliverable(commands: Seq<CommandRecord>, id: Seq<char>) -> int
    decreases commands.len(),
{
    if commands.len() == 0 {
        0
    } else if deliverable(commands[0], id) {
        0
    } else {
        1 + first_deliverable(commands.drop_first(), id)
    }
}

/// `first_deliverable` is within bounds, skips only rows that cannot be
/// handed out, and stops at one that can.
pub proof fn lemma_first_deliverable(commands: Seq<CommandRecord>, id: Seq<char>)
    ensures
        0 <= first_deliverable(commands, id) <= commands.len(),
        forall|j: int|
            0 <= j < first_deliverable(commands, id) ==> !deliverable(#[trigger] commands[j], id),
        first_deliverable(commands, id) < commands.len() ==> deliverable(
            commands[first_deliverable(commands, id)],
            id,
        ),
    decreases commands.len(),
{
    if commands.len() > 0 && !deliverable(commands[0], id) {
        let rest = commands.drop_first();
        lemma_first_deliverable(rest, id);
        assert forall|j: int| 0 <= j < first_deliverable(commands, id) implies !deliverable(
            #[trigger] commands[j],
            id,
        ) by {
            if j > 0 {
                assert(commands[j] == rest[j - 1]);
            }
        }
    }
}

/// The index that skips only undeliverable rows and stops at a deliverable
/// one or at the end is `first_deliverable`.
pub proof fn lemma_first_deliverable_is(commands: Seq<CommandRecord>, id: Seq<char>, i: int)
    requires
        0 <= i <= commands.len(),
        forall|j: int| 0 <= j < i ==> !deliverable(#[trigger] commands[j], id),
        i < commands.len() ==> deliverable(commands[i], id),
    ensures
        first_deliverable(commands, id) == i,
{
    lemma_first_deliverable(commands, id);
    let f = first_deliverable(commands, id);
    if f < i {
        assert(!deliverable(commands[f], id));
    } else if i < f {
        assert(!deliverable(commands[i], id));
    }
}

/// The rows that do not belong to `id`, in order.
pub open spec fn without(commands: Seq<CommandRecord>, id: Seq<char>) -> Seq<CommandRecord> {
    commands.filter(|c: CommandRecord| c.enrollment_id != id)
}

/// The row `c` after a result was reported for it.
pub open spec fn answered(c: CommandRecord, status: CommandStatus, raw: Seq<u8>) -> CommandRecord {
    CommandRecord { status: reported_status(status), result: Some(raw), ..c }
}

/// The row `c` after it was handed to the device.
pub open spec fn handed_out(c: CommandRecord) -> CommandRecord {
    CommandRecord { dispatched: true, ..c }
}

/// The command as the device receives it.
pub open spec fn as_queued(c: CommandRecord) -> QueuedCommandView {
    QueuedCommandView { uuid: c.uuid, command: c.command, created_at: c.created_at }
}

impl StoreState {
    /// The store with nothing in it.
    pub open spec fn empty() -> StoreState {
        StoreState {
            enrollments: Map::empty(),
            commands: Seq::empty(),
            bootstrap_tokens: Map::empty(),
            push_certs: Map::empty(),
            cert_auth: Set::empty(),
        }
    }

    /// An enrollment is disabled unless it is known and enabled.
    pub open spec fn is_disabled(self, id: Seq<char>) -> bool {
        self.enrollments.contains_key(id) ==> self.enrollments[id].disabled
    }

    /// The enrollment record that an `Authenticate` leaves: a known enrollment
    /// keeps what a token update gave it, and is disabled; an unknown one
    /// starts disabled with no push credentials.
    pub open spec fn authenticated(
        self,
        id: EnrollIdView,
        topic: Seq<char>,
        raw: Seq<u8>,
    ) -> EnrollmentRecord {
        if self.enrollments.contains_key(id.id) {
            EnrollmentRecord {
                topic,
                disabled: true,
                authenticate_raw: Some(raw),
                ..self.enrollments[id.id]
            }
        } else {
            EnrollmentRecord {
                enroll_type: id.enroll_type,
                parent_id: id.parent_id,
                topic,
                push_magic: None,
                push_token: None,
                disabled: true,
                authenticate_raw: Some(raw),
                token_update_raw: None,
            }
        }
    }

    /// `Authenticate`: the enrollment's queue is dropped, and its record is
    /// created or refreshed, disabled.
    pub open spec fn store_authenticate(
        self,
        id: EnrollIdView,
        topic: Seq<char>,
        raw: Seq<u8>,
    ) -> StoreState {
        StoreState {
            enrollments: self.enrollments.insert(id.id, self.authenticated(id, topic, raw)),
            commands: without(self.commands, id.id),
            ..self
        }
    }

    /// `TokenUpdate`: a known enrollment gets its push credentials and is
    /// enabled; an unknown one is not created.
    pub open spec fn store_token_update(
        self,
        id: Seq<char>,
        push_magic: Seq<char>,
        token: Seq<u8>,
        raw: Seq<u8>,
    ) -> StoreState {
        if self.enrollments.contains_key(id) {
            StoreState {
                enrollments: self.enrollments.insert(
                    id,
                    EnrollmentRecord {
                        push_magic: Some(push_magic),
                        push_token: Some(token),
                        disabled: false,
                        token_update_raw: Some(raw),
                        ..self.enrollments[id]
                    },
                ),
                ..self
            }
        } else {
            self
        }
    }

    /// A known enrollment is disabled; nothing else changes.
    pub open spec fn disable(self, id: Seq<char>) -> StoreState {
        if self.enrollments.contains_key(id) {
            StoreState {
                enrollments: self.enrollments.insert(
                    id,
                    EnrollmentRecord { disabled: true, ..self.enrollments[id] },
                ),
                ..self
            }
        } else {
            self
        }
    }

    /// The rows of `id`, oldest first.
    pub open spec fn queue(self, id: Seq<char>) -> Seq<CommandRecord> {
        self.commands.filter(|c: CommandRecord| c.enrollment_id == id)
    }

    /// Some row of `id` carries `uuid`.
    pub open spec fn has_uuid(self, id: Seq<char>, uuid: Seq<char>) -> bool {
        exists|i: int|
            0 <= i < self.commands.len() && #[trigger] self.commands[i].enrollment_id == id
                && self.commands[i].uuid == uuid
    }

    /// A new pending row at the end of the queue.
    pub open spec fn enqueue(
        self,
        id: Seq<char>,
        uuid: Seq<char>,
        command: Seq<u8>,
        created_at: i64,
    ) -> StoreState {
        StoreState {
            commands: self.commands.push(
                CommandRecord {
                    enrollment_id: id,
                    uuid,
                    command,
                    status: QueueStatus::Pending,
                    dispatched: false,
                    result: None,
                    created_at,
                },
            ),
            ..self
        }
    }

    /// `next` is `self` with one pending row for `id`, `uuid` and `command`
    /// added at the end of the queue, whatever its time stamp.
    pub open spec fn enqueued(
        self,
        next: StoreState,
        id: Seq<char>,
        uuid: Seq<char>,
        command: Seq<u8>,
    ) -> bool {
        exists|created_at: i64| next == #[trigger] self.enqueue(id, uuid, command, created_at)
    }

    /// The command that the next poll of `id` receives: its oldest
    /// deliverable row.
    pub open spec fn next_command(self, id: Seq<char>) -> Option<QueuedCommandView> {
        let i = first_deliverable(self.commands, id);
        if i < self.commands.len() {
            Some(as_queued(self.commands[i]))
        } else {
            None
        }
    }

    /// The store after a poll of `id`: the row handed out is marked as
    /// dispatched.
    pub open spec fn after_next_command(self, id: Seq<char>) -> StoreState {
        let i = first_deliverable(self.commands, id);
        if i < self.commands.len() {
            StoreState { commands: self.commands.update(i, handed_out(self.commands[i])), ..self }
        } else {
            self
        }
    }

    /// Every row of `id` with `uuid` takes the reported status and raw result.
    pub open spec fn store_result(
        self,
        id: Seq<char>,
        uuid: Seq<char>,
        status: CommandStatus,
        raw: Seq<u8>,
    ) -> StoreState {
        StoreState {
            commands: self.commands.map_values(
                |c: CommandRecord|
                    if c.enrollment_id == id && c.uuid == uuid {
                        answered(c, status, raw)
                    } else {
                        c
                    },
            ),
            ..self
        }
    }

    /// The rows of `id` are removed.
    pub open spec fn clear_queue(self, id: Seq<char>) -> StoreState {
        StoreState { commands: without(self.commands, id), ..self }
    }

    pub open spec fn store_bootstrap_token(self, id: Seq<char>, token: Seq<u8>) -> StoreState {
        StoreState { bootstrap_tokens: self.bootstrap_tokens.insert(id, token), ..self }
    }

    pub open spec fn bootstrap_token(self, id: Seq<char>) -> Option<Seq<u8>> {
        if self.bootstrap_tokens.contains_key(id) {
            Some(self.bootstrap_tokens[id])
        } else {
            None
        }
    }

    pub open spec fn delete_bootstrap_token(self, id: Seq<char>) -> StoreState {
        StoreState { bootstrap_tokens: self.bootstrap_tokens.remove(id), ..self }
    }

    /// The push credentials of `id`: those of a known, enabled enrollment
    /// that has both a token and a push magic.
    pub open spec fn push_info(self, id: Seq<char>) -> Option<PushInfoView> {
        if self.enrollments.contains_key(id) && !self.enrollments[id].disabled
            && self.enrollments[id].push_magic is Some && self.enrollments[id].push_token is Some {
            Some(
                PushInfoView {
                    token: self.enrollments[id].push_token->0,
                    push_magic: self.enrollments[id].push_magic->0,
                    topic: self.enrollments[id].topic,
                },
            )
        } else {
            None
        }
    }

    pub open spec fn store_push_cert(
        self,
        topic: Seq<char>,
        cert_pem: Seq<char>,
        key_pem: Seq<char>,
    ) -> StoreState {
        StoreState {
            push_certs: self.push_certs.insert(topic, PushCertRecord { cert_pem, key_pem }),
            ..self
        }
    }

    pub open spec fn push_cert(self, topic: Seq<char>) -> Option<(Seq<char>, Seq<char>)> {
        if self.push_certs.contains_key(topic) {
            Some((self.push_certs[topic].cert_pem, self.push_certs[topic].key_pem))
        } else {
            None
        }
    }

    pub open spec fn associate_cert(self, id: Seq<char>, cert_hash: Seq<u8>) -> StoreState {
        StoreState { cert_auth: self.cert_auth.insert((id, cert_hash)), ..self }
    }

    pub open spec fn has_cert_auth(self, id: Seq<char>, cert_hash: Seq<u8>) -> bool {
        self.cert_auth.contains((id, cert_hash))
    }
}

/// The push credentials of several enrollments: `infos` lists, in some order
/// and once each, the credentials of the distinct identifiers among `ids`
/// that have any.
pub open spec fn push_infos_of(
    state: StoreState,
    ids: Seq<Seq<char>>,
    infos: Seq<PushInfoView>,
) -> bool {
    exists|keys: Seq<Seq<char>>|
        {
            &&& keys.no_duplicates()
            &&& forall|k: Seq<char>| #[trigger]
                keys.contains(k) <==> (ids.contains(k) && state.push_info(k) is Some)
            &&& #[trigger] keys.len() == infos.len()
            &&& forall|i: int|
                0 <= i < keys.len() ==> state.push_info(#[trigger] keys[i]) == Some(infos[i])
        }
}

/// The view of an optional pair of strings.
pub open spec fn opt_pair_view(o: Option<(String, String)>) -> Option<(Seq<char>, Seq<char>)> {
    match o {
        Some(p) => Some((p.0@, p.1@)),
        None => None,
    }
}

/// The view of an optional push info.
pub open spec fn opt_push_view(o: Option<PushInfo>) -> Option<PushInfoView> {
    match o {
        Some(p) => Some(p@),
        None => None,
    }
}

/// The identifiers of a list of enrollments.
pub open spec fn id_views(ids: Seq<&EnrollId>) -> Seq<Seq<char>> {
    ids.map_values(|id: &EnrollId| id.id@)
}

/// The views of a list of push infos.
pub open spec fn push_views(infos: Seq<PushInfo>) -> Seq<PushInfoView> {
    infos.map_values(|p: PushInfo| p@)
}

/// What every capability of a store rests on: the model of its content.
pub trait StoreModel {
    /// The logical content of the store.
    spec fn state(&self) -> StoreState;

    /// Whether the operations of this kind of store always succeed, but for
    /// the refusal of a UUID that is already queued. A store that can be
    /// unavailable says `false`.
    spec fn infallible() -> bool;
}

/// Check-in storage operations.
pub trait CheckinStore: StoreModel {
    /// Store an Authenticate message and clear command queue, as one step.
    fn store_authenticate(
        &mut self,
        id: &EnrollId,
        msg: &Authenticate,
    ) -> (r: Result<(), StoreError>)
        ensures
            Self::infallible() ==> r is Ok,
            final(self).state() == (match r {
                Ok(_) => old(self).state().store_authenticate(id@, msg.topic@, msg.raw@),
                Err(_) => old(self).state(),
            }),
    ;

    /// Store a TokenUpdate message and enable enrollment.
    fn store_token_update(
        &mut self,
        id: &EnrollId,
        msg: &TokenUpdate,
    ) -> (r: Result<(), StoreError>)
        ensures
            Self::infallible() ==> r is Ok,
            final(self).state() == (match r {
                Ok(_) => old(self).state().store_token_update(
                    id.id@,
                    msg.push_magic@,
                    msg.token@,
                    msg.raw@,
                ),
                Err(_) => old(self).state(),
            }),
    ;

    /// Store a CheckOut message and disable enrollment.
    fn store_checkout(&mut self, id: &EnrollId, msg: &CheckOut) -> (r: Result<(), StoreError>)
        ensures
            Self::infallible() ==> r is Ok,
            final(self).state() == (match r {
                Ok(_) => old(self).state().disable(id.id@),
                Err(_) => old(self).state(),
            }),
    ;

    /// Check if an enrollment is disabled.
    fn is_disabled(&self, id: &EnrollId) -> (r: Result<bool, StoreError>)
        ensures
            Self::infallible() ==> r is Ok,
            r matches Ok(b) ==> b == self.state().is_disabled(id.id@),
    ;

    /// Disable an enrollment.
    fn disable(&mut self, id: &EnrollId) -> (r: Result<(), StoreError>)
        ensures
            Self::infallible() ==> r is Ok,
            final(self).state() == (match r {
                Ok(_) => old(self).state().disable(id.id@),
                Err(_) => old(self).state(),
            }),
    ;
}

/// Command storage operations.
pub trait CommandStore: StoreModel {
    /// Enqueue a command for an enrollment, under a new UUID. A store that
    /// cannot fail refuses a command for one reason alone: the constraint
    /// that a UUID is queued once for an enrollment.
    fn enqueue_command(&mut self, id: &EnrollId, command: &[u8]) -> (r: Result<String, StoreError>)
        ensures
            r matches Err(e) ==> e == StoreError::Constraint || !Self::infallible(),
            match r {
                Ok(uuid) => !old(self).state().has_uuid(id.id@, uuid@) && old(self).state().enqueued(
                    final(self).state(),
                    id.id@,
                    uuid@,
                    command@,
                ),
                Err(_) => final(self).state() == old(self).state(),
            },
    ;

    /// Take the next pending command for an enrollment: the oldest row that
    /// was not handed out before, which is marked as dispatched in the same
    /// step.
    fn next_command(&mut self, id: &EnrollId) -> (r: Result<Option<QueuedCommand>, StoreError>)
        ensures
            Self::infallible() ==> r is Ok,
            match r {
                Ok(q) => {
                    &&& opt_queued_view(q) == old(self).state().next_command(id.id@)
                    &&& final(self).state() == old(self).state().after_next_command(id.id@)
                },
                Err(_) => final(self).state() == old(self).state(),
            },
    ;

    /// Store command results: the row leaves `Pending`.
    fn store_result(
        &mut self,
        id: &EnrollId,
        results: &CommandResults,
    ) -> (r: Result<(), StoreError>)
        ensures
            Self::infallible() ==> r is Ok,
            final(self).state() == (match r {
                Ok(_) => old(self).state().store_result(
                    id.id@,
                    results.command_uuid@,
                    results.status,
                    results.raw@,
                ),
                Err(_) => old(self).state(),
            }),
    ;

    /// Clear all commands of an enrollment.
    fn clear_queue(&mut self, id: &EnrollId) -> (r: Result<(), StoreError>)
        ensures
            Self::infallible() ==> r is Ok,
            final(self).state() == (match r {
                Ok(_) => old(self).state().clear_queue(id.id@),
                Err(_) => old(self).state(),
            }),
    ;
}

/// Bootstrap token storage.
pub trait BootstrapTokenStore: StoreModel {
    /// Store a bootstrap token.
    fn store_bootstrap_token(&mut self, id: &EnrollId, token: &[u8]) -> (r: Result<(), StoreError>)
        ensures
            Self::infallible() ==> r is Ok,
            final(self).state() == (match r {
                Ok(_) => old(self).state().store_bootstrap_token(id.id@, token@),
                Err(_) => old(self).state(),
            }),
    ;

    /// Get a bootstrap token.
    fn get_bootstrap_token(&self, id: &EnrollId) -> (r: Result<Option<Vec<u8>>, StoreError>)
        ensures
            Self::infallible() ==> r is Ok,
            r matches Ok(t) ==> opt_bytes_view(t) == self.state().bootstrap_token(id.id@),
    ;

    /// Delete a bootstrap token.
    fn delete_bootstrap_token(&mut self, id: &EnrollId) -> (r: Result<(), StoreError>)
        ensures
            Self::infallible() ==> r is Ok,
            final(self).state() == (match r {
                Ok(_) => old(self).state().delete_bootstrap_token(id.id@),
                Err(_) => old(self).state(),
            }),
    ;
}

/// Push info storage.
pub trait PushStore: StoreModel {
    /// Get push info for an enrollment.
    fn get_push_info(&self, id: &EnrollId) -> (r: Result<Option<PushInfo>, StoreError>)
        ensures
            Self::infallible() ==> r is Ok,
            r matches Ok(p) ==> opt_push_view(p) == self.state().push_info(id.id@),
    ;

    /// Get push info for multiple enrollments.
    fn get_push_infos(&self, ids: &[&EnrollId]) -> (r: Result<Vec<PushInfo>, StoreError>)
        ensures
            Self::infallible() ==> r is Ok,
            r matches Ok(infos) ==> push_infos_of(self.state(), id_views(ids@), push_views(infos@)),
    ;
}

/// Push certificate storage.
pub trait PushCertStore: StoreModel {
    /// Store a push certificate.
    fn store_push_cert(
        &mut self,
        topic: &str,
        cert_pem: &str,
        key_pem: &str,
    ) -> (r: Result<(), StoreError>)
        ensures
            Self::infallible() ==> r is Ok,
            final(self).state() == (match r {
                Ok(_) => old(self).state().store_push_cert(topic@, cert_pem@, key_pem@),
                Err(_) => old(self).state(),
            }),
    ;

    /// Get a push certificate by topic.
    fn get_push_cert(&self, topic: &str) -> (r: Result<Option<(String, String)>, StoreError>)
        ensures
            Self::infallible() ==> r is Ok,
            r matches Ok(p) ==> opt_pair_view(p) == self.state().push_cert(topic@),
    ;
}

/// Certificate authentication storage.
pub trait CertAuthStore: StoreModel {
    /// Associate a certificate hash with an enrollment.
    fn associate_cert(&mut self, id: &EnrollId, cert_hash: &[u8]) -> (r: Result<(), StoreError>)
        ensures
            Self::infallible() ==> r is Ok,
            final(self).state() == (match r {
                Ok(_) => old(self).state().associate_cert(id.id@, cert_hash@),
                Err(_) => old(self).state(),
            }),
    ;

    /// Check if a certificate is associated with an enrollment.
    fn has_cert_auth(&self, id: &EnrollId, cert_hash: &[u8]) -> (r: Result<bool, StoreError>)
        ensures
            Self::infallible() ==> r is Ok,
            r matches Ok(b) ==> b == self.state().has_cert_auth(id.id@, cert_hash@),
    ;
}

/// Combined storage trait.
pub trait AllStorage: CheckinStore + CommandStore + BootstrapTokenStore + PushStore + PushCertStore + CertAuthStore {
}

impl<T> AllStorage for T where
    T: CheckinStore + CommandStore + BootstrapTokenStore + PushStore + PushCertStore + CertAuthStore,
 {
}

} // verus!
