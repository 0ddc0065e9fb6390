//! The operator-facing operations: storing a push certificate, queueing a
//! command for a list of enrollments, and queueing a focus policy.

use vstd::prelude::*;
use vstd::string::*;
use crate::cert::{
    certificate_of, extract_topic_from_cert, parse_pem_cert, pem_parsed, topic_of,
};
use crate::enrollment::{EnrollId, EnrollType};
use crate::error::MdmError;
use crate::nanomdm::store_failed;
use crate::storage::{CommandStore, PushCertStore, StoreModel, StoreState};
use crate::text::{
    char_views, chars_of, find_from, find_in, slice_chars, split_char, split_chars, string_of,
    trim_chars, trimmed,
};

verus! {

/// Push certificate response.
#[derive(Debug, Clone)]
pub struct PushCertResponse {
    pub topic: String,
    pub not_after: Option<String>,
}

/// Enqueue command request.
#[derive(Debug, Clone)]
pub struct EnqueueRequest {
    pub command: Option<String>,
    pub no_push: bool,
}

/// Enqueue command response.
#[derive(Debug, Clone)]
pub struct EnqueueResponse {
    pub command_uuid: String,
    pub request_type: String,
}

/// Set focus policy response.
#[derive(Debug, Clone)]
pub struct SetPolicyResponse {
    pub command_uuid: String,
}

/// Device compliance status.
#[derive(Debug, Clone)]
pub struct DeviceStatus {
    pub device_id: String,
    pub compliant: bool,
    pub last_seen: Option<String>,
    pub policy_applied: bool,
}

/// The line that ends a PEM certificate.
pub open spec fn end_certificate() -> Seq<char> {
    "-----END CERTIFICATE-----"@
}

/// The certificate and the key in a body that holds the PEM certificate
/// followed by the PEM key: the certificate is the text up to and with the
/// first end-of-certificate line; the key is what follows, up to a second
/// such line if there is one, without the whitespace around it. A body
/// without an end-of-certificate line has neither.
pub open spec fn cert_and_key(body: Seq<char>) -> Option<(Seq<char>, Seq<char>)> {
    let first = find_from(body, end_certificate(), 0);
    if first < 0 {
        None
    } else {
        let after = first + end_certificate().len();
        let second = find_from(body, end_certificate(), after);
        let end = if second < 0 {
            body.len() as int
        } else {
            second
        };
        Some((body.subrange(0, after), trimmed(body.subrange(after, end))))
    }
}

/// The view of an optional pair of strings.
pub open spec fn opt_parts_view(o: Option<(String, String)>) -> Option<(Seq<char>, Seq<char>)> {
    match o {
        Some(p) => Some((p.0@, p.1@)),
        None => None,
    }
}

/// Splits a body into its PEM certificate and its PEM key.
pub fn split_cert_and_key(body: &str) -> (r: Option<(String, String)>)
    ensures
        opt_parts_view(r) == cert_and_key(body@),
{
    let text = chars_of(body);
    let marker = chars_of("-----END CERTIFICATE-----");
    let first = match find_in(&text, &marker, 0) {
        Some(i) => i,
        None => {
            return None;
        },
    };
    let total = text.len();
    let after = first + marker.len();
    let end = match find_in(&text, &marker, after) {
        Some(j) => j,
        None => total,
    };
    let cert = slice_chars(&text, 0, after);
    let rest = slice_chars(&text, after, end);
    let key = trim_chars(&rest);
    Some((string_of(&cert), string_of(&key)))
}

/// The topic, certificate and key that a push-certificate body stands for:
/// the certificate must be a PEM block tagged `CERTIFICATE` whose subject
/// names an APNs topic.
pub open spec fn push_cert_of(body: Seq<char>) -> Result<(Seq<char>, Seq<char>, Seq<char>), MdmError> {
    match cert_and_key(body) {
        None => Err(MdmError::Parse),
        Some((cert_pem, key_pem)) => match certificate_of(pem_parsed(cert_pem)) {
            Err(e) => Err(e),
            Ok(der) => match topic_of(der) {
                Err(e) => Err(e),
                Ok(topic) => Ok((topic, cert_pem, key_pem)),
            },
        },
    }
}

/// Store a push certificate: the body is the PEM certificate followed by
/// the PEM key. A body that does not hold both, or whose certificate names
/// no topic, is a parse error and stores nothing.
pub fn store_push_cert_inner<S: PushCertStore>(store: &mut S, body: &str) -> (r: Result<PushCertResponse, MdmError>)
    ensures
        match push_cert_of(body@) {
            Err(e) => r matches Err(f) && f == e && final(store).state() == old(store).state(),
            Ok((topic, cert_pem, key_pem)) => match r {
                Ok(resp) => {
                    &&& resp.topic@ == topic
                    &&& resp.not_after is None
                    &&& final(store).state() == old(store).state().store_push_cert(
                        topic,
                        cert_pem,
                        key_pem,
                    )
                },
                Err(_) => store_failed::<S, PushCertResponse>(r) && final(store).state() == old(
                    store,
                ).state(),
            },
        },
{
    let (cert_pem, key_pem) = match split_cert_and_key(body) {
        Some(parts) => parts,
        None => {
            return Err(MdmError::Parse);
        },
    };
    let der = match parse_pem_cert(cert_pem.as_str()) {
        Ok(der) => der,
        Err(e) => {
            return Err(e);
        },
    };
    let topic = match extract_topic_from_cert(der.as_slice()) {
        Ok(t) => t,
        Err(e) => {
            return Err(e);
        },
    };
    match store.store_push_cert(topic.as_str(), cert_pem.as_str(), key_pem.as_str()) {
        Ok(_) => Ok(PushCertResponse { topic, not_after: None }),
        Err(e) => Err(MdmError::Storage(e)),
    }
}

/// The errors that queueing a command can end in: a failure of the store,
/// which for a store that cannot fail is the refusal of a UUID that the
/// enrollment's queue holds already.
pub open spec fn enqueue_failure<S: StoreModel>(e: MdmError) -> bool {
    e matches MdmError::Storage(cause) && (cause == crate::error::StoreError::Constraint
        || !S::infallible())
}

/// The enrollments that a comma-separated list names: each piece without
/// the whitespace around it.
pub open spec fn targets_of(ids: Seq<char>) -> Seq<Seq<char>> {
    split_char(ids, ',').map_values(|p: Seq<char>| trimmed(p))
}

/// The store after one command was queued for each target in turn, under
/// the given UUIDs and time stamps.
pub open spec fn enqueue_each(
    s: StoreState,
    targets: Seq<Seq<char>>,
    uuids: Seq<Seq<char>>,
    times: Seq<i64>,
    body: Seq<u8>,
) -> StoreState
    decreases targets.len(),
{
    if targets.len() == 0 {
        s
    } else {
        enqueue_each(s, targets.drop_last(), uuids.drop_last(), times.drop_last(), body).enqueue(
            targets.last(),
            uuids.last(),
            body,
            times.last(),
        )
    }
}

/// `after` is `before` with one row queued for each of the first `count`
/// targets, in order; `first` is the UUID of the first of them.
pub open spec fn queued_for(
    before: StoreState,
    after: StoreState,
    targets: Seq<Seq<char>>,
    count: int,
    body: Seq<u8>,
    first: Option<Seq<char>>,
) -> bool {
    exists|uuids: Seq<Seq<char>>, times: Seq<i64>|
        {
            &&& 0 <= count <= targets.len()
            &&& uuids.len() == count
            &&& times.len() == count
            &&& after == #[trigger] enqueue_each(before, targets.take(count), uuids, times, body)
            &&& first == if count > 0 {
                Some(uuids[0])
            } else {
                None
            }
        }
}

/// The enrollment identifiers of a comma-separated list.
pub fn parse_targets(ids: &str) -> (r: Vec<String>)
    ensures
        crate::text::views(r@) == targets_of(ids@),
        r@.len() >= 1,
{
    let text = chars_of(ids);
    let pieces = split_chars(&text, ',');
    let mut r: Vec<String> = Vec::new();
    let mut i: usize = 0;
    while i < pieces.len()
        invariant
            i <= pieces@.len(),
            r@.len() == i,
            forall|j: int| 0 <= j < i ==> r@[j]@ == trimmed(#[trigger] pieces@[j]@),
        decreases pieces@.len() - i,
    {
        let t = trim_chars(&pieces[i]);
        r.push(string_of(&t));
        i += 1;
    }
    proof {
        assert(char_views(pieces@) == split_char(ids@, ','));
        assert forall|j: int| 0 <= j < r@.len() implies crate::text::views(r@)[j] == targets_of(
            ids@,
        )[j] by {
            assert(char_views(pieces@)[j] == pieces@[j]@);
        }
        assert(crate::text::views(r@) =~= targets_of(ids@));
    }
    r
}

/// Queue one command for each enrollment of a comma-separated list, in the
/// order of the list, each as a device enrollment. The answer names the
/// UUID of the first row and the command's request type. The rows are
/// queued one by one: where the store fails, the rows queued before stay.
pub fn enqueue_inner<S: CommandStore>(
    store: &mut S,
    ids: &str,
    body: &[u8],
    request_type: &str,
) -> (r: Result<EnqueueResponse, MdmError>)
    ensures
        match r {
            Ok(resp) => {
                &&& resp.request_type@ == request_type@
                &&& queued_for(
                    old(store).state(),
                    final(store).state(),
                    targets_of(ids@),
                    targets_of(ids@).len() as int,
                    body@,
                    Some(resp.command_uuid@),
                )
            },
            Err(e) => {
                &&& enqueue_failure::<S>(e)
                &&& exists|count: int, first: Option<Seq<char>>|
                    count < targets_of(ids@).len() && #[trigger] queued_for(
                        old(store).state(),
                        final(store).state(),
                        targets_of(ids@),
                        count,
                        body@,
                        first,
                    )
            },
        },
{
    let targets = parse_targets(ids);
    let ghost names = targets_of(ids@);
    let ghost before = store.state();
    let ghost mut uuids: Seq<Seq<char>> = Seq::empty();
    let ghost mut times: Seq<i64> = Seq::empty();
    let mut first: Option<String> = None;
    let mut i: usize = 0;
    proof {
        assert(names.take(0).len() == 0);
    }
    while i < targets.len()
        invariant
            i <= targets@.len(),
            names == crate::text::views(targets@),
            names == targets_of(ids@),
            before == old(store).state(),
            uuids.len() == i,
            times.len() == i,
            store.state() == enqueue_each(before, names.take(i as int), uuids, times, body@),
            targets@.len() >= 1,
            i == 0 ==> first is None,
            i > 0 ==> (first matches Some(u) && u@ == uuids[0]),
        decreases targets@.len() - i,
    {
        let id = EnrollId { enroll_type: EnrollType::Device, id: targets[i].clone(), parent_id: None };
        let ghost prev = store.state();
        match store.enqueue_command(&id, body) {
            Ok(uuid) => {
                proof {
                    let t = choose|t: i64| store.state() == prev.enqueue(id.id@, uuid@, body@, t);
                    let grown_u = uuids.push(uuid@);
                    let grown_t = times.push(t);
                    assert(names.take(i + 1).drop_last() == names.take(i as int));
                    assert(grown_u.drop_last() == uuids);
                    assert(grown_t.drop_last() == times);
                    assert(names.take(i + 1).last() == id.id@);
                    uuids = grown_u;
                    times = grown_t;
                }
                if i == 0 {
                    first = Some(uuid);
                }
            },
            Err(e) => {
                proof {
                    let none: Option<Seq<char>> = None;
                    let f = if i > 0 {
                        Some(uuids[0])
                    } else {
                        none
                    };
                    assert(queued_for(before, store.state(), names, i as int, body@, f));
                }
                return Err(MdmError::Storage(e));
            },
        }
        i += 1;
    }
    proof {
        assert(names.take(names.len() as int) == names);
        assert(queued_for(before, store.state(), names, names.len() as int, body@, Some(uuids[0])));
    }
    Ok(EnqueueResponse { command_uuid: first.unwrap(), request_type: request_type.to_owned() })
}

/// Queue a focus policy, already wrapped in a command, for a device. Where
/// the store refuses, nothing is queued.
pub fn set_policy<S: CommandStore>(store: &mut S, device_id: String, command: &[u8]) -> (r: Result<SetPolicyResponse, MdmError>)
    ensures
        match r {
            Ok(resp) => old(store).state().enqueued(
                final(store).state(),
                device_id@,
                resp.command_uuid@,
                command@,
            ),
            Err(e) => {
                &&& enqueue_failure::<S>(e)
                &&& final(store).state() == old(store).state()
            },
        },
{
    let id = EnrollId { enroll_type: EnrollType::Device, id: device_id, parent_id: None };
    match store.enqueue_command(&id, command) {
        Ok(uuid) => Ok(SetPolicyResponse { command_uuid: uuid }),
        Err(e) => Err(MdmError::Storage(e)),
    }
}

/// What is known of a device of which nothing was recorded: compliant, never
/// seen, no policy applied.
pub fn get_status(device_id: String) -> (r: DeviceStatus)
    ensures
        r.device_id == device_id,
        r.compliant,
        r.last_seen is None,
        !r.policy_applied,
{
    DeviceStatus { device_id, compliant: true, last_seen: None, policy_applied: false }
}

} // verus!
