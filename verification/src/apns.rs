//! Waking devices through APNs: what is sent for an enrollment, what is
//! reported of each attempt, and the service that goes from enrollment
//! identifiers to notifications.

use vstd::prelude::*;
use vstd::string::*;
use crate::enrollment::EnrollId;
use crate::error::MdmError;
use crate::nanomdm::store_failed;
use crate::push::{hex_lower, mdm_payload, wake_payload, PushInfo, PushInfoView, PushResult};
use crate::storage::{id_views, push_infos_of, push_views, PushStore, StoreModel};

verus! {

/// One wake-up notification, ready to be sent.
#[derive(Debug, Clone)]
pub struct WakeUp {
    /// The device token, in lower-case hexadecimal.
    pub token_hex: String,
    /// The APNs topic.
    pub topic: String,
    /// The payload: `{"mdm":"<push magic>"}`.
    pub body: String,
}

/// What carries a notification to APNs. The answer is the APNs identifier
/// of the accepted notification, if it gave one, or the text of the error.
pub trait ApnsTransport {
    fn send(&mut self, notification: &WakeUp) -> Result<Option<String>, String>;
}

/// The notification that wakes the device of `info`.
pub fn wake_up(info: &PushInfo) -> (n: WakeUp)
    ensures
        n.token_hex@ == hex_lower(info.token@),
        n.topic@ == info.topic@,
        n.body@ == wake_payload(info.push_magic@),
{
    WakeUp {
        token_hex: info.token_hex(),
        topic: info.topic.clone(),
        body: mdm_payload(info.push_magic.as_str()),
    }
}

/// The result of one attempt. It is filed under the hexadecimal token. An
/// accepted notification without an identifier has the empty identifier.
pub fn push_outcome(token_hex: String, answer: Result<Option<String>, String>) -> (r: PushResult)
    ensures
        r.enrollment_id@ == token_hex@,
        match answer {
            Ok(Some(id)) => r.error is None && (r.apns_id matches Some(a) && a@ == id@),
            Ok(None) => r.error is None && (r.apns_id matches Some(a) && a@.len() == 0),
            Err(e) => r.apns_id is None && (r.error matches Some(t) && t@ == e@),
        },
{
    match answer {
        Ok(Some(id)) => PushResult::success(token_hex, id),
        Ok(None) => PushResult::success(token_hex, String::new()),
        Err(e) => PushResult { enrollment_id: token_hex, apns_id: None, error: Some(e) },
    }
}

/// `result` reports an attempt to wake the device of `info`: it is filed
/// under the device's hexadecimal token, and is either a success with an
/// identifier or a failure with an error.
pub open spec fn reports(result: PushResult, info: PushInfoView) -> bool {
    &&& result.enrollment_id@ == hex_lower(info.token)
    &&& result.apns_id is Some <==> result.error is None
}

/// Low-level push notification sender.
pub trait Pusher {
    /// Push notifications to devices: one result for each, in order.
    fn push(&mut self, infos: &[&PushInfo]) -> (results: Vec<PushResult>)
        ensures
            results@.len() == infos@.len(),
            forall|i: int| 0 <= i < infos@.len() ==> reports(#[trigger] results@[i], infos@[i]@),
    ;
}

/// APNs pusher over a transport.
pub struct ApnsPusher<T> {
    pub transport: T,
}

impl<T: ApnsTransport> ApnsPusher<T> {
    /// Create a pusher that sends through `transport`.
    pub fn new(transport: T) -> (r: Self)
        ensures
            r.transport == transport,
    {
        ApnsPusher { transport }
    }

    /// Wakes one device, and reports what came of it.
    pub fn push_single(&mut self, info: &PushInfo) -> (r: PushResult)
        ensures
            reports(r, info@),
    {
        let notification = wake_up(info);
        let answer = self.transport.send(&notification);
        push_outcome(notification.token_hex, answer)
    }
}

impl<T: ApnsTransport> Pusher for ApnsPusher<T> {
    fn push(&mut self, infos: &[&PushInfo]) -> (results: Vec<PushResult>) {
        let mut results: Vec<PushResult> = Vec::new();
        let mut i: usize = 0;
        while i < infos.len()
            invariant
                i <= infos@.len(),
                results@.len() == i,
                forall|j: int| 0 <= j < i ==> reports(#[trigger] results@[j], infos@[j]@),
            decreases infos@.len() - i,
        {
            let r = self.push_single(infos[i]);
            results.push(r);
            i += 1;
        }
        results
    }
}

/// Push service that resolves enrollment IDs to push info.
pub struct PushService<S, P> {
    pub store: S,
    pub pusher: P,
}

impl<S: PushStore, P: Pusher> PushService<S, P> {
    /// Create a new push service.
    pub fn new(store: S, pusher: P) -> (r: Self)
        ensures
            r.store == store,
            r.pusher == pusher,
    {
        PushService { store, pusher }
    }

    /// Push to enrollments by ID: the push credentials of the enrollments
    /// are read in one query, and each of them is pushed to once. An
    /// enrollment that is unknown, disabled or without credentials is passed
    /// over.
    pub fn push_by_ids(&mut self, ids: &[&EnrollId]) -> (r: Result<Vec<PushResult>, MdmError>)
        ensures
            final(self).store == old(self).store,
            match r {
                Ok(results) => exists|infos: Seq<PushInfoView>|
                    {
                        &&& #[trigger] push_infos_of(old(self).store.state(), id_views(ids@), infos)
                        &&& results@.len() == infos.len()
                        &&& forall|i: int|
                            0 <= i < infos.len() ==> reports(#[trigger] results@[i], infos[i])
                    },
                Err(_) => store_failed::<S, Vec<PushResult>>(r) && final(self).pusher == old(
                    self,
                ).pusher,
            },
    {
        let infos = match self.store.get_push_infos(ids) {
            Ok(infos) => infos,
            Err(e) => {
                return Err(MdmError::Storage(e));
            },
        };
        let mut refs: Vec<&PushInfo> = Vec::new();
        let mut i: usize = 0;
        while i < infos.len()
            invariant
                i <= infos@.len(),
                refs@.len() == i,
                forall|j: int| 0 <= j < i ==> #[trigger] refs@[j]@ == infos@[j]@,
            decreases infos@.len() - i,
        {
            refs.push(&infos[i]);
            i += 1;
        }
        let results = self.pusher.push(refs.as_slice());
        proof {
            let views = push_views(infos@);
            assert forall|i: int| 0 <= i < views.len() implies reports(
                #[trigger] results@[i],
                views[i],
            ) by {
                assert(refs@[i]@ == infos@[i]@);
            }
            assert(push_infos_of(old(self).store.state(), id_views(ids@), views));
        }
        Ok(results)
    }
}

} // verus!
