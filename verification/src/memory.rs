//! A store held in memory: the reference implementation of every storage
//! capability, proved against the model.

use vstd::prelude::*;
use vstd::string::*;
use crate::checkin::{Authenticate, CheckOut, TokenUpdate};
use crate::command::{CommandResults, CommandStatus, QueuedCommand};
use crate::enrollment::{EnrollId, EnrollType};
use crate::error::StoreError;
use crate::push::PushInfo;
use crate::storage::{
    answered, deliverable, handed_out, id_views, lemma_first_deliverable_is, opt_push_view,
    push_infos_of, push_views, reported_status, without, BootstrapTokenStore, CertAuthStore,
    CheckinStore, CommandRecord, CommandStore, EnrollmentRecord, PushCertRecord, PushCertStore,
    PushStore, QueueStatus, StoreModel, StoreState,
};
use crate::table::Table;
use crate::text::{
    bytes_eq, clone_bytes, clone_opt_bytes, clone_opt_string, opt_bytes_view, opt_str_view, str_eq,
};

verus! {

/// Enrollment record.
#[derive(Debug, Clone)]
pub struct EnrollmentRow {
    pub enroll_type: EnrollType,
    pub parent_id: Option<String>,
    pub topic: String,
    pub push_magic: Option<String>,
    pub push_token: Option<Vec<u8>>,
    pub disabled: bool,
    pub authenticate_raw: Option<Vec<u8>>,
    pub token_update_raw: Option<Vec<u8>>,
}

impl View for EnrollmentRow {
    type V = EnrollmentRecord;

    open spec fn view(&self) -> EnrollmentRecord {
        EnrollmentRecord {
            enroll_type: self.enroll_type,
            parent_id: opt_str_view(self.parent_id),
            topic: self.topic@,
            push_magic: opt_str_view(self.push_magic),
            push_token: opt_bytes_view(self.push_token),
            disabled: self.disabled,
            authenticate_raw: opt_bytes_view(self.authenticate_raw),
            token_update_raw: opt_bytes_view(self.token_update_raw),
        }
    }
}

/// Command record.
#[derive(Debug, Clone)]
pub struct CommandRow {
    pub enrollment_id: String,
    pub uuid: String,
    pub command: Vec<u8>,
    pub status: QueueStatus,
    pub dispatched: bool,
    pub result: Option<Vec<u8>>,
    pub created_at: i64,
}

impl View for CommandRow {
    type V = CommandRecord;

    open spec fn view(&self) -> CommandRecord {
        CommandRecord {
            enrollment_id: self.enrollment_id@,
            uuid: self.uuid@,
            command: self.command@,
            status: self.status,
            dispatched: self.dispatched,
            result: opt_bytes_view(self.result),
            created_at: self.created_at,
        }
    }
}

/// Push certificate record.
#[derive(Debug, Clone)]
pub struct PushCertRow {
    pub cert_pem: String,
    pub key_pem: String,
}

impl View for PushCertRow {
    type V = PushCertRecord;

    open spec fn view(&self) -> PushCertRecord {
        PushCertRecord { cert_pem: self.cert_pem@, key_pem: self.key_pem@ }
    }
}

/// Certificate auth record.
#[derive(Debug, Clone)]
pub struct CertAuthRow {
    pub enrollment_id: String,
    pub cert_hash: Vec<u8>,
}

/// The records that a sequence of command rows stands for.
pub open spec fn records(rows: Seq<CommandRow>) -> Seq<CommandRecord> {
    rows.map_values(|r: CommandRow| r@)
}

/// The bindings that a sequence of certificate rows stands for.
pub open spec fn bindings(rows: Seq<CertAuthRow>) -> Set<(Seq<char>, Seq<u8>)> {
    Set::new(
        |p: (Seq<char>, Seq<u8>)|
            exists|i: int|
                0 <= i < rows.len() && #[trigger] rows[i].enrollment_id@ == p.0 && rows[i].cert_hash@
                    == p.1,
    )
}

/// The queue status that a reported command status leaves a row in.
pub fn status_after(s: CommandStatus) -> (r: QueueStatus)
    ensures
        r == reported_status(s),
{
    match s {
        CommandStatus::Acknowledged => QueueStatus::Acknowledged,
        CommandStatus::Error => QueueStatus::Error,
        CommandStatus::CommandFormatError => QueueStatus::CommandFormatError,
        CommandStatus::NotNow => QueueStatus::NotNow,
        CommandStatus::Idle => QueueStatus::Idle,
    }
}

/// The shape of every UUID that is drawn: 36 characters, with hyphens after
/// the groups of 8, 4, 4 and 4.
pub open spec fn is_drawn_uuid(s: Seq<char>) -> bool {
    s.len() == 36 && s[8] == '-' && s[13] == '-' && s[18] == '-' && s[23] == '-'
}

/// The queue of `id` holds a UUID that a draw could give.
pub open spec fn holds_drawn_uuid(state: StoreState, id: Seq<char>) -> bool {
    exists|u: Seq<char>| is_drawn_uuid(u) && #[trigger] state.has_uuid(id, u)
}

/// A fresh random version-4 UUID in its hyphenated lower-case form, made by
/// `uuid::Uuid::new_v4` and its `to_string`. Every such string has 36
/// characters with hyphens after the groups of 8, 4, 4 and 4 digits.
#[verifier::external_body]
pub(crate) fn new_uuid() -> (s: String)
    ensures
        is_drawn_uuid(s@),
{
    uuid::Uuid::new_v4().to_string()
}

/// The current time in microseconds since the Unix epoch, read with
/// `chrono::Utc::now` and `timestamp_micros`. Nothing is claimed of it.
#[verifier::external_body]
pub(crate) fn now_micros() -> i64 {
    chrono::Utc::now().timestamp_micros()
}

/// What a sequence holds after one more element is pushed.
proof fn lemma_contains_push<T>(s: Seq<T>, x: T, k: T)
    ensures
        s.push(x).contains(k) <==> (s.contains(k) || k == x),
{
    if s.push(x).contains(k) {
        let i = choose|i: int| 0 <= i < s.push(x).len() && s.push(x)[i] == k;
        if i < s.len() {
            assert(s[i] == k);
        }
    }
    if s.contains(k) {
        let i = choose|i: int| 0 <= i < s.len() && s[i] == k;
        assert(s.push(x)[i] == k);
    }
    if k == x {
        assert(s.push(x)[s.len() as int] == k);
    }
}

/// Taking one more row into a prefix keeps it or drops it, by its owner.
proof fn lemma_without_step(s: Seq<CommandRecord>, k: int, id: Seq<char>)
    requires
        0 <= k < s.len(),
    ensures
        without(s.take(k + 1), id) == if s[k].enrollment_id != id {
            without(s.take(k), id).push(s[k])
        } else {
            without(s.take(k), id)
        },
{
    assert(s.take(k + 1) == s.take(k).push(s[k]));
    s.take(k).lemma_filter_push(s[k], |c: CommandRecord| c.enrollment_id != id);
}

/// Removes the rows of `id`, keeping the others in order.
fn remove_rows_of(commands: &mut Vec<CommandRow>, id: &str)
    ensures
        records(final(commands)@) == without(records(old(commands)@), id@),
{
    let ghost orig = records(commands@);
    let ghost mut k: int = 0;
    let mut i: usize = 0;
    proof {
        reveal(Seq::filter);
        assert(orig.take(0).len() == 0);
        assert(without(orig.take(0), id@) =~= Seq::<CommandRecord>::empty());
        assert(orig.skip(0) == orig);
        assert(records(commands@) =~= without(orig.take(0), id@) + orig.skip(0));
    }
    while i < commands.len()
        invariant
            0 <= k <= orig.len(),
            i == without(orig.take(k), id@).len(),
            records(commands@) == without(orig.take(k), id@) + orig.skip(k),
        decreases orig.len() - k,
    {
        proof {
            assert(records(commands@)[i as int] == orig.skip(k)[0]);
            lemma_without_step(orig, k, id@);
        }
        if str_eq(commands[i].enrollment_id.as_str(), id) {
            let ghost before = records(commands@);
            let _ = commands.remove(i);
            proof {
                assert(records(commands@) =~= before.remove(i as int));
                assert(before.remove(i as int) =~= without(orig.take(k), id@) + orig.skip(k + 1));
                k = k + 1;
            }
        } else {
            proof {
                assert(records(commands@) =~= without(orig.take(k + 1), id@) + orig.skip(k + 1));
                k = k + 1;
            }
            i += 1;
        }
    }
    proof {
        assert(orig.skip(k).len() == 0);
        assert(k == orig.len());
        assert(orig.take(k) == orig);
        assert(records(commands@) =~= without(orig, id@));
    }
}

/// The whole store, held in memory.
#[derive(Debug, Clone)]
pub struct MemoryStorage {
    enrollments: Table<EnrollmentRow>,
    commands: Vec<CommandRow>,
    bootstrap_tokens: Table<Vec<u8>>,
    push_certs: Table<PushCertRow>,
    cert_auth: Vec<CertAuthRow>,
}

impl StoreModel for MemoryStorage {
    closed spec fn state(&self) -> StoreState {
        StoreState {
            enrollments: self.enrollments@,
            commands: records(self.commands@),
            bootstrap_tokens: self.bootstrap_tokens@,
            push_certs: self.push_certs@,
            cert_auth: bindings(self.cert_auth@),
        }
    }

    open spec fn infallible() -> bool {
        true
    }
}

impl MemoryStorage {
    /// An empty store.
    pub fn new() -> (s: Self)
        ensures
            s.state() == StoreState::empty(),
    {
        let s = MemoryStorage {
            enrollments: Table::new(),
            commands: Vec::new(),
            bootstrap_tokens: Table::new(),
            push_certs: Table::new(),
            cert_auth: Vec::new(),
        };
        assert(s.state() =~= StoreState::empty());
        s
    }

    /// Whether some row of `id` carries `uuid`.
    pub fn has_uuid(&self, id: &str, uuid: &str) -> (r: bool)
        ensures
            r == self.state().has_uuid(id@, uuid@),
    {
        let mut i: usize = 0;
        while i < self.commands.len()
            invariant
                i <= self.commands@.len(),
                forall|j: int|
                    0 <= j < i ==> !(#[trigger] records(self.commands@)[j].enrollment_id == id@
                        && records(self.commands@)[j].uuid == uuid@),
            decreases self.commands@.len() - i,
        {
            if str_eq(self.commands[i].enrollment_id.as_str(), id) && str_eq(
                self.commands[i].uuid.as_str(),
                uuid,
            ) {
                assert(records(self.commands@)[i as int].enrollment_id == id@);
                return true;
            }
            i += 1;
        }
        false
    }

    /// Adds a pending row for `id` under the given UUID and time stamp, or
    /// refuses a UUID that the enrollment's queue already holds.
    pub fn enqueue_with(
        &mut self,
        id: &EnrollId,
        command: &[u8],
        uuid: String,
        created_at: i64,
    ) -> (r: Result<String, StoreError>)
        ensures
            match r {
                Ok(u) => {
                    &&& u@ == uuid@
                    &&& !old(self).state().has_uuid(id.id@, uuid@)
                    &&& final(self).state() == old(self).state().enqueue(
                        id.id@,
                        uuid@,
                        command@,
                        created_at,
                    )
                },
                Err(e) => {
                    &&& e == StoreError::Constraint
                    &&& old(self).state().has_uuid(id.id@, uuid@)
                    &&& final(self).state() == old(self).state()
                },
            },
    {
        if self.has_uuid(id.id.as_str(), uuid.as_str()) {
            return Err(StoreError::Constraint);
        }
        let row = CommandRow {
            enrollment_id: id.id.clone(),
            uuid: uuid.clone(),
            command: clone_bytes(command),
            status: QueueStatus::Pending,
            dispatched: false,
            result: None,
            created_at,
        };
        self.commands.push(row);
        proof {
            assert(self.state() =~= old(self).state().enqueue(
                id.id@,
                uuid@,
                command@,
                created_at,
            ));
        }
        Ok(uuid)
    }

    /// The number of rows, of whatever status, that `id` has in the queue.
    pub fn queue_len(&self, id: &str) -> (n: usize)
        ensures
            n == self.state().queue(id@).len(),
    {
        let ghost recs = records(self.commands@);
        let ghost pred = |c: CommandRecord| c.enrollment_id == id@;
        let mut n: usize = 0;
        let mut i: usize = 0;
        proof {
            reveal(Seq::filter);
            assert(recs.take(0).filter(pred).len() == 0);
        }
        while i < self.commands.len()
            invariant
                i <= self.commands@.len(),
                recs == records(self.commands@),
                pred == (|c: CommandRecord| c.enrollment_id == id@),
                n == recs.take(i as int).filter(pred).len(),
                n <= i,
            decreases self.commands@.len() - i,
        {
            proof {
                assert(recs.take(i + 1) == recs.take(i as int).push(recs[i as int]));
                recs.take(i as int).lemma_filter_push(recs[i as int], pred);
            }
            if str_eq(self.commands[i].enrollment_id.as_str(), id) {
                n += 1;
            }
            i += 1;
        }
        proof {
            assert(recs.take(recs.len() as int) == recs);
        }
        n
    }

    /// The status of the row of `id` that carries `uuid`, if there is one.
    pub fn command_status(&self, id: &str, uuid: &str) -> (r: Option<QueueStatus>)
        ensures
            match r {
                Some(s) => exists|i: int|
                    0 <= i < self.state().commands.len() && #[trigger] self.state().commands[i].enrollment_id
                        == id@ && self.state().commands[i].uuid == uuid@
                        && self.state().commands[i].status == s,
                None => !self.state().has_uuid(id@, uuid@),
            },
    {
        let mut i: usize = 0;
        while i < self.commands.len()
            invariant
                i <= self.commands@.len(),
                forall|j: int|
                    0 <= j < i ==> !(#[trigger] records(self.commands@)[j].enrollment_id == id@
                        && records(self.commands@)[j].uuid == uuid@),
            decreases self.commands@.len() - i,
        {
            if str_eq(self.commands[i].enrollment_id.as_str(), id) && str_eq(
                self.commands[i].uuid.as_str(),
                uuid,
            ) {
                assert(self.state().commands[i as int].enrollment_id == id@);
                return Some(self.commands[i].status);
            }
            i += 1;
        }
        None
    }
}

impl MemoryStorage {
    /// The push credentials of the enrollment `id`.
    fn push_info_of(&self, id: &str) -> (r: Option<PushInfo>)
        ensures
            opt_push_view(r) == self.state().push_info(id@),
    {
        match self.enrollments.get(id) {
            Some(row) => {
                if row.disabled {
                    return None;
                }
                match (&row.push_magic, &row.push_token) {
                    (Some(magic), Some(token)) => Some(
                        PushInfo {
                            token: clone_bytes(token.as_slice()),
                            push_magic: magic.clone(),
                            topic: row.topic.clone(),
                        },
                    ),
                    _ => None,
                }
            },
            None => None,
        }
    }

    /// Sets the `disabled` flag of a known enrollment.
    fn set_disabled(&mut self, id: &str)
        ensures
            final(self).state() == old(self).state().disable(id@),
    {
        let row = match self.enrollments.get(id) {
            Some(row) => EnrollmentRow {
                enroll_type: row.enroll_type,
                parent_id: clone_opt_string(&row.parent_id),
                topic: row.topic.clone(),
                push_magic: clone_opt_string(&row.push_magic),
                push_token: clone_opt_bytes(&row.push_token),
                disabled: true,
                authenticate_raw: clone_opt_bytes(&row.authenticate_raw),
                token_update_raw: clone_opt_bytes(&row.token_update_raw),
            },
            None => {
                return ;
            },
        };
        self.enrollments.insert(id.to_owned(), row);
        assert(self.state() =~= old(self).state().disable(id@));
    }
}

impl CheckinStore for MemoryStorage {
    fn store_authenticate(
        &mut self,
        id: &EnrollId,
        msg: &Authenticate,
    ) -> (r: Result<(), StoreError>)
    {
        remove_rows_of(&mut self.commands, id.id.as_str());
        let row = match self.enrollments.get(id.id.as_str()) {
            Some(row) => EnrollmentRow {
                enroll_type: row.enroll_type,
                parent_id: clone_opt_string(&row.parent_id),
                topic: msg.topic.clone(),
                push_magic: clone_opt_string(&row.push_magic),
                push_token: clone_opt_bytes(&row.push_token),
                disabled: true,
                authenticate_raw: Some(clone_bytes(msg.raw.as_slice())),
                token_update_raw: clone_opt_bytes(&row.token_update_raw),
            },
            None => EnrollmentRow {
                enroll_type: id.enroll_type,
                parent_id: clone_opt_string(&id.parent_id),
                topic: msg.topic.clone(),
                push_magic: None,
                push_token: None,
                disabled: true,
                authenticate_raw: Some(clone_bytes(msg.raw.as_slice())),
                token_update_raw: None,
            },
        };
        self.enrollments.insert(id.id.clone(), row);
        assert(self.state() =~= old(self).state().store_authenticate(id@, msg.topic@, msg.raw@));
        Ok(())
    }

    fn store_token_update(
        &mut self,
        id: &EnrollId,
        msg: &TokenUpdate,
    ) -> (r: Result<(), StoreError>)
    {
        let row = match self.enrollments.get(id.id.as_str()) {
            Some(row) => EnrollmentRow {
                enroll_type: row.enroll_type,
                parent_id: clone_opt_string(&row.parent_id),
                topic: row.topic.clone(),
                push_magic: Some(msg.push_magic.clone()),
                push_token: Some(clone_bytes(msg.token.as_slice())),
                disabled: false,
                authenticate_raw: clone_opt_bytes(&row.authenticate_raw),
                token_update_raw: Some(clone_bytes(msg.raw.as_slice())),
            },
            None => {
                return Ok(());
            },
        };
        self.enrollments.insert(id.id.clone(), row);
        assert(self.state() =~= old(self).state().store_token_update(
            id.id@,
            msg.push_magic@,
            msg.token@,
            msg.raw@,
        ));
        Ok(())
    }

    fn store_checkout(&mut self, id: &EnrollId, msg: &CheckOut) -> (r: Result<(), StoreError>)
    {
        self.set_disabled(id.id.as_str());
        Ok(())
    }

    fn is_disabled(&self, id: &EnrollId) -> (r: Result<bool, StoreError>)
    {
        match self.enrollments.get(id.id.as_str()) {
            Some(row) => Ok(row.disabled),
            None => Ok(true),
        }
    }

    fn disable(&mut self, id: &EnrollId) -> (r: Result<(), StoreError>)
    {
        self.set_disabled(id.id.as_str());
        Ok(())
    }
}

impl CommandStore for MemoryStorage {
    /// The row is queued under a freshly drawn UUID of 36 characters. The
    /// one way to fail is a draw that the enrollment's queue holds already:
    /// an enrollment whose queue holds no such UUID, an empty queue above
    /// all, is always served.
    fn enqueue_command(
        &mut self,
        id: &EnrollId,
        command: &[u8],
    ) -> (r: Result<String, StoreError>)
        ensures
            match r {
                Ok(uuid) => is_drawn_uuid(uuid@),
                Err(e) => e == StoreError::Constraint && holds_drawn_uuid(
                    old(self).state(),
                    id.id@,
                ),
            },
    {
        let uuid = new_uuid();
        let created_at = now_micros();
        let r = self.enqueue_with(id, command, uuid, created_at);
        proof {
            if r is Ok {
                assert(self.state() == old(self).state().enqueue(
                    id.id@,
                    r->Ok_0@,
                    command@,
                    created_at,
                ));
            }
        }
        r
    }

    fn next_command(&mut self, id: &EnrollId) -> (r: Result<Option<QueuedCommand>, StoreError>)
    {
        let ghost recs = records(self.commands@);
        let mut i: usize = 0;
        while i < self.commands.len()
            invariant
                i <= self.commands@.len(),
                *self == *old(self),
                recs == records(self.commands@),
                forall|j: int| 0 <= j < i ==> !deliverable(#[trigger] recs[j], id.id@),
            decreases self.commands@.len() - i,
        {
            let row = &self.commands[i];
            let pending = match row.status {
                QueueStatus::Pending => true,
                _ => false,
            };
            if pending && !row.dispatched && str_eq(row.enrollment_id.as_str(), id.id.as_str()) {
                assert(deliverable(recs[i as int], id.id@));
                let queued = QueuedCommand {
                    uuid: row.uuid.clone(),
                    command: clone_bytes(row.command.as_slice()),
                    created_at: row.created_at,
                };
                let marked = CommandRow {
                    enrollment_id: row.enrollment_id.clone(),
                    uuid: row.uuid.clone(),
                    command: clone_bytes(row.command.as_slice()),
                    status: row.status,
                    dispatched: true,
                    result: clone_opt_bytes(&row.result),
                    created_at: row.created_at,
                };
                self.commands.set(i, marked);
                proof {
                    lemma_first_deliverable_is(recs, id.id@, i as int);
                    assert(records(self.commands@) =~= recs.update(i as int, handed_out(recs[i as int])));
                    assert(self.state() =~= old(self).state().after_next_command(id.id@));
                }
                return Ok(Some(queued));
            }
            assert(!deliverable(recs[i as int], id.id@));
            i += 1;
        }
        proof {
            lemma_first_deliverable_is(recs, id.id@, recs.len() as int);
        }
        Ok(None)
    }

    fn store_result(
        &mut self,
        id: &EnrollId,
        results: &CommandResults,
    ) -> (r: Result<(), StoreError>)
    {
        let ghost recs = records(self.commands@);
        let ghost uuid = results.command_uuid@;
        let mut i: usize = 0;
        while i < self.commands.len()
            invariant
                i <= self.commands@.len(),
                self.commands@.len() == recs.len(),
                uuid == results.command_uuid@,
                forall|j: int|
                    0 <= j < i ==> #[trigger] records(self.commands@)[j] == if recs[j].enrollment_id
                        == id.id@ && recs[j].uuid == uuid {
                        answered(recs[j], results.status, results.raw@)
                    } else {
                        recs[j]
                    },
                forall|j: int|
                    i <= j < recs.len() ==> #[trigger] records(self.commands@)[j] == recs[j],
                self.enrollments == old(self).enrollments,
                self.bootstrap_tokens == old(self).bootstrap_tokens,
                self.push_certs == old(self).push_certs,
                self.cert_auth == old(self).cert_auth,
            decreases self.commands@.len() - i,
        {
            let row = &self.commands[i];
            assert(records(self.commands@)[i as int] == recs[i as int]);
            if str_eq(row.enrollment_id.as_str(), id.id.as_str()) && str_eq(
                row.uuid.as_str(),
                results.command_uuid.as_str(),
            ) {
                let updated = CommandRow {
                    enrollment_id: row.enrollment_id.clone(),
                    uuid: row.uuid.clone(),
                    command: clone_bytes(row.command.as_slice()),
                    status: status_after(results.status),
                    dispatched: row.dispatched,
                    result: Some(clone_bytes(results.raw.as_slice())),
                    created_at: row.created_at,
                };
                let ghost before = records(self.commands@);
                self.commands.set(i, updated);
                proof {
                    assert forall|j: int| 0 <= j < recs.len() && j != i implies #[trigger] records(
                        self.commands@,
                    )[j] == before[j] by {}
                }
            }
            i += 1;
        }
        proof {
            assert(self.state() =~= old(self).state().store_result(
                id.id@,
                uuid,
                results.status,
                results.raw@,
            ));
        }
        Ok(())
    }

    fn clear_queue(&mut self, id: &EnrollId) -> (r: Result<(), StoreError>)
    {
        remove_rows_of(&mut self.commands, id.id.as_str());
        assert(self.state() =~= old(self).state().clear_queue(id.id@));
        Ok(())
    }
}

impl BootstrapTokenStore for MemoryStorage {
    fn store_bootstrap_token(&mut self, id: &EnrollId, token: &[u8]) -> (r: Result<(), StoreError>)
    {
        self.bootstrap_tokens.insert(id.id.clone(), clone_bytes(token));
        assert(self.state() =~= old(self).state().store_bootstrap_token(id.id@, token@));
        Ok(())
    }

    fn get_bootstrap_token(&self, id: &EnrollId) -> (r: Result<Option<Vec<u8>>, StoreError>)
    {
        match self.bootstrap_tokens.get(id.id.as_str()) {
            Some(t) => Ok(Some(clone_bytes(t.as_slice()))),
            None => Ok(None),
        }
    }

    fn delete_bootstrap_token(&mut self, id: &EnrollId) -> (r: Result<(), StoreError>)
    {
        self.bootstrap_tokens.remove(id.id.as_str());
        assert(self.state() =~= old(self).state().delete_bootstrap_token(id.id@));
        Ok(())
    }
}

impl PushStore for MemoryStorage {
    fn get_push_info(&self, id: &EnrollId) -> (r: Result<Option<PushInfo>, StoreError>)
    {
        Ok(self.push_info_of(id.id.as_str()))
    }

    fn get_push_infos(&self, ids: &[&EnrollId]) -> (r: Result<Vec<PushInfo>, StoreError>)
    {
        let ghost idv = id_views(ids@);
        let ghost state = self.state();
        let ghost mut keys: Seq<Seq<char>> = Seq::empty();
        let mut infos: Vec<PushInfo> = Vec::new();
        let mut i: usize = 0;
        while i < ids.len()
            invariant
                i <= ids@.len(),
                idv == id_views(ids@),
                state == self.state(),
                keys.no_duplicates(),
                forall|k: Seq<char>| #[trigger]
                    keys.contains(k) <==> (idv.take(i as int).contains(k) && state.push_info(k) is Some),
                keys.len() == infos@.len(),
                forall|j: int|
                    0 <= j < keys.len() ==> state.push_info(#[trigger] keys[j]) == Some(infos@[j]@),
            decreases ids@.len() - i,
        {
            let key = ids[i].id.as_str();
            assert(idv[i as int] == key@);
            assert(idv.take(i + 1) == idv.take(i as int).push(key@));
            assert(forall|m: int| 0 <= m < i ==> idv.take(i as int)[m] == idv[m]);
            let mut seen = false;
            let mut j: usize = 0;
            while j < i && !seen
                invariant
                    j <= i <= ids@.len(),
                    idv == id_views(ids@),
                    !seen ==> forall|m: int| 0 <= m < j ==> idv[m] != key@,
                    seen ==> idv.take(i as int).contains(key@),
                decreases i - j + if seen { 0int } else { 1int },
            {
                if str_eq(ids[j].id.as_str(), key) {
                    seen = true;
                    assert(idv.take(i as int)[j as int] == key@);
                } else {
                    j += 1;
                }
            }
            let ghost prev = idv.take(i as int);
            let ghost next = idv.take(i + 1);
            let found = if seen {
                None
            } else {
                self.push_info_of(key)
            };
            match found {
                Some(info) => {
                    proof {
                        let grown = keys.push(key@);
                        assert(!keys.contains(key@));
                        assert forall|a: int, b: int|
                            0 <= a < grown.len() && 0 <= b < grown.len() && a != b implies grown[a]
                            != grown[b] by {
                            if a == keys.len() {
                                assert(keys.contains(grown[b]));
                            } else if b == keys.len() {
                                assert(keys.contains(grown[a]));
                            }
                        }
                        assert forall|k: Seq<char>| #[trigger]
                            grown.contains(k) <==> (next.contains(k) && state.push_info(k) is Some) by {
                            lemma_contains_push(keys, key@, k);
                            lemma_contains_push(prev, key@, k);
                        }
                        keys = grown;
                    }
                    infos.push(info);
                },
                None => {
                    proof {
                        assert forall|k: Seq<char>| #[trigger]
                            keys.contains(k) <==> (next.contains(k) && state.push_info(k) is Some) by {
                            lemma_contains_push(prev, key@, k);
                        }
                    }
                },
            }
            i += 1;
        }
        proof {
            assert(idv.take(ids@.len() as int) == idv);
            let views = push_views(infos@);
            assert(keys.len() == views.len());
            assert forall|j: int| 0 <= j < keys.len() implies state.push_info(#[trigger] keys[j])
                == Some(views[j]) by {}
            assert(push_infos_of(state, idv, views));
        }
        Ok(infos)
    }
}

impl PushCertStore for MemoryStorage {
    fn store_push_cert(
        &mut self,
        topic: &str,
        cert_pem: &str,
        key_pem: &str,
    ) -> (r: Result<(), StoreError>)
    {
        self.push_certs.insert(
            topic.to_owned(),
            PushCertRow { cert_pem: cert_pem.to_owned(), key_pem: key_pem.to_owned() },
        );
        assert(self.state() =~= old(self).state().store_push_cert(topic@, cert_pem@, key_pem@));
        Ok(())
    }

    fn get_push_cert(&self, topic: &str) -> (r: Result<Option<(String, String)>, StoreError>)
    {
        match self.push_certs.get(topic) {
            Some(row) => Ok(Some((row.cert_pem.clone(), row.key_pem.clone()))),
            None => Ok(None),
        }
    }
}

impl CertAuthStore for MemoryStorage {
    fn associate_cert(&mut self, id: &EnrollId, cert_hash: &[u8]) -> (r: Result<(), StoreError>)
    {
        let ghost before = self.cert_auth@;
        self.cert_auth.push(
            CertAuthRow { enrollment_id: id.id.clone(), cert_hash: clone_bytes(cert_hash) },
        );
        proof {
            let after = self.cert_auth@;
            assert forall|p: (Seq<char>, Seq<u8>)|
                bindings(after).contains(p) <==> (bindings(before).contains(p) || p == (
                    id.id@,
                    cert_hash@,
                )) by {
                if bindings(after).contains(p) {
                    let i = choose|i: int|
                        0 <= i < after.len() && #[trigger] after[i].enrollment_id@ == p.0
                            && after[i].cert_hash@ == p.1;
                    if i < before.len() {
                        assert(before[i].enrollment_id@ == p.0);
                    }
                }
                if bindings(before).contains(p) {
                    let i = choose|i: int|
                        0 <= i < before.len() && #[trigger] before[i].enrollment_id@ == p.0
                            && before[i].cert_hash@ == p.1;
                    assert(after[i].enrollment_id@ == p.0);
                }
                if p == (id.id@, cert_hash@) {
                    assert(after[before.len() as int].enrollment_id@ == p.0);
                }
            }
            assert(bindings(after) =~= bindings(before).insert((id.id@, cert_hash@)));
            assert(self.state() =~= old(self).state().associate_cert(id.id@, cert_hash@));
        }
        Ok(())
    }

    fn has_cert_auth(&self, id: &EnrollId, cert_hash: &[u8]) -> (r: Result<bool, StoreError>)
    {
        let mut i: usize = 0;
        while i < self.cert_auth.len()
            invariant
                i <= self.cert_auth@.len(),
                forall|j: int|
                    0 <= j < i ==> !(#[trigger] self.cert_auth@[j].enrollment_id@ == id.id@
                        && self.cert_auth@[j].cert_hash@ == cert_hash@),
            decreases self.cert_auth@.len() - i,
        {
            if str_eq(self.cert_auth[i].enrollment_id.as_str(), id.id.as_str()) && bytes_eq(
                self.cert_auth[i].cert_hash.as_slice(),
                cert_hash,
            ) {
                return Ok(true);
            }
            i += 1;
        }
        Ok(false)
    }
}

} // verus!
