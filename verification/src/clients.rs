//! The APNs clients of a server: one for each topic, made from the topic's
//! push certificate when it is first needed, and discarded when the
//! certificate is replaced.

use vstd::prelude::*;
use vstd::string::*;
use crate::api::{push_cert_of, store_push_cert_inner, PushCertResponse};
use crate::apns::{ApnsTransport, WakeUp};
use crate::error::MdmError;
use crate::nanomdm::store_failed;
use crate::storage::{PushCertStore, StoreModel};
use crate::text::str_eq;

verus! {

/// What makes a transport from a push certificate and its key.
pub trait ApnsConnector {
    type Transport: ApnsTransport;

    fn connect(&mut self, cert_pem: &str, key_pem: &str) -> Result<Self::Transport, String>;
}

/// The clients by topic.
pub struct TopicClients<C: ApnsConnector> {
    pub connector: C,
    pub clients: Vec<(String, C::Transport)>,
}

/// The topics of the clients, in their order.
pub open spec fn topics<T>(clients: Seq<(String, T)>) -> Seq<Seq<char>> {
    clients.map_values(|c: (String, T)| c.0@)
}

/// What is said where a topic has no push certificate in the store.
pub open spec fn no_certificate() -> Seq<char> {
    "no push certificate for the topic"@
}

/// What is said where the store could not be read.
pub open spec fn unreadable_certificate() -> Seq<char> {
    "the push certificate could not be read"@
}

/// Some client of the list is for `topic`.
pub open spec fn has_client<T>(clients: Seq<(String, T)>, topic: Seq<char>) -> bool {
    exists|i: int| 0 <= i < clients.len() && #[trigger] clients[i].0@ == topic
}

impl<C: ApnsConnector> TopicClients<C> {
    /// No client yet.
    pub fn new(connector: C) -> (r: Self)
        ensures
            r.connector == connector,
            r.clients@.len() == 0,
    {
        TopicClients { connector, clients: Vec::new() }
    }

    /// The index of the first client for `topic`.
    fn position(&self, topic: &str) -> (r: Option<usize>)
        ensures
            match r {
                Some(i) => i < self.clients@.len() && self.clients@[i as int].0@ == topic@,
                None => !has_client(self.clients@, topic@),
            },
    {
        let mut i: usize = 0;
        while i < self.clients.len()
            invariant
                i <= self.clients@.len(),
                forall|j: int| 0 <= j < i ==> self.clients@[j].0@ != topic@,
            decreases self.clients@.len() - i,
        {
            if str_eq(self.clients[i].0.as_str(), topic) {
                return Some(i);
            }
            i += 1;
        }
        None
    }

    /// Discards the client of a topic, so that the next notification for
    /// the topic is sent with a client made from the certificate then
    /// stored. The clients of other topics stay.
    pub fn discard(&mut self, topic: &str)
        ensures
            !has_client(final(self).clients@, topic@),
            forall|t: Seq<char>|
                t != topic@ ==> (#[trigger] has_client(final(self).clients@, t) == has_client(
                    old(self).clients@,
                    t,
                )),
            final(self).connector == old(self).connector,
    {
        let ghost before = self.clients@;
        let mut i: usize = 0;
        let ghost mut k: int = 0;
        while i < self.clients.len()
            invariant
                0 <= k <= before.len(),
                i <= self.clients@.len(),
                self.clients@.len() - i == before.len() - k,
                self.connector == old(self).connector,
                before == old(self).clients@,
                forall|j: int| 0 <= j < i ==> self.clients@[j].0@ != topic@,
                forall|j: int|
                    i <= j < self.clients@.len() ==> self.clients@[j] == before[j - i + k],
                forall|t: Seq<char>|
                    t != topic@ ==> (#[trigger] has_client(self.clients@, t) == has_client(
                        before,
                        t,
                    )),
            decreases self.clients@.len() - i,
        {
            let ghost prev = self.clients@;
            if str_eq(self.clients[i].0.as_str(), topic) {
                let _ = self.clients.remove(i);
                proof {
                    let cur = self.clients@;
                    assert(cur == prev.remove(i as int));
                    assert forall|t: Seq<char>| t != topic@ implies (#[trigger] has_client(cur, t)
                        == has_client(prev, t)) by {
                        if has_client(cur, t) {
                            let j = choose|j: int| 0 <= j < cur.len() && #[trigger] cur[j].0@ == t;
                            let j0 = if j < i {
                                j
                            } else {
                                j + 1
                            };
                            assert(prev[j0].0@ == t);
                        }
                        if has_client(prev, t) {
                            let j = choose|j: int| 0 <= j < prev.len() && #[trigger] prev[j].0@ == t;
                            let j1 = if j < i {
                                j
                            } else {
                                j - 1
                            };
                            assert(cur[j1].0@ == t);
                        }
                    }
                    k = k + 1;
                }
            } else {
                proof {
                    k = k + 1;
                }
                i += 1;
            }
        }
    }

    /// Sends a notification with the client of its topic. Where the topic
    /// has no client yet, one is made from the push certificate that the
    /// store holds for the topic, and it is kept whatever comes of the
    /// sending; without a certificate nothing is made and nothing sent, and
    /// the error says which of the two was missing. No client is ever
    /// removed, and only the client of the topic is used. Whether the
    /// notification goes through is for the connector and the transport to
    /// say: their answers are handed on as they are.
    pub fn send_for<S: PushCertStore>(&mut self, store: &S, notification: &WakeUp) -> (r: Result<Option<String>, String>)
        ensures
            forall|t: Seq<char>|
                t != notification.topic@ ==> (#[trigger] has_client(final(self).clients@, t)
                    == has_client(old(self).clients@, t)),
            has_client(old(self).clients@, notification.topic@) ==> topics(final(self).clients@)
                == topics(old(self).clients@),
            !has_client(old(self).clients@, notification.topic@) ==> {
                ||| r is Err && final(self).clients@ == old(self).clients@
                ||| store.state().push_cert(notification.topic@) is Some && topics(
                    final(self).clients@,
                ) == topics(old(self).clients@).push(notification.topic@)
            },
            !has_client(old(self).clients@, notification.topic@) && store.state().push_cert(
                notification.topic@,
            ) is None ==> final(self).clients@ == old(self).clients@ && (r matches Err(e) && (e@
                == no_certificate() || (!S::infallible() && e@ == unreadable_certificate()))),
            r is Ok ==> has_client(final(self).clients@, notification.topic@),
            final(self).clients@.len() >= old(self).clients@.len(),
            forall|j: int|
                0 <= j < old(self).clients@.len() && (#[trigger] old(self).clients@[j]).0@
                    != notification.topic@ ==> final(self).clients@[j] == old(self).clients@[j],
    {
        let at = match self.position(notification.topic.as_str()) {
            Some(i) => i,
            None => {
                let (cert_pem, key_pem) = match store.get_push_cert(notification.topic.as_str()) {
                    Ok(Some(pair)) => pair,
                    Ok(None) => {
                        return Err("no push certificate for the topic".to_owned());
                    },
                    Err(_) => {
                        return Err("the push certificate could not be read".to_owned());
                    },
                };
                let client = match self.connector.connect(cert_pem.as_str(), key_pem.as_str()) {
                    Ok(c) => c,
                    Err(e) => {
                        return Err(e);
                    },
                };
                let ghost prev = self.clients@;
                self.clients.push((notification.topic.clone(), client));
                proof {
                    let cur = self.clients@;
                    assert(cur[prev.len() as int].0@ == notification.topic@);
                    assert(topics(cur) =~= topics(prev).push(notification.topic@));
                    assert forall|t: Seq<char>| t != notification.topic@ implies (#[trigger] has_client(
                        cur,
                        t,
                    ) == has_client(prev, t)) by {
                        if has_client(cur, t) {
                            let j = choose|j: int| 0 <= j < cur.len() && #[trigger] cur[j].0@ == t;
                            assert(prev[j].0@ == t);
                        }
                        if has_client(prev, t) {
                            let j = choose|j: int| 0 <= j < prev.len() && #[trigger] prev[j].0@ == t;
                            assert(cur[j].0@ == t);
                        }
                    }
                }
                self.clients.len() - 1
            },
        };
        let ghost prev = self.clients@;
        let r = self.clients[at].1.send(notification);
        proof {
            let cur = self.clients@;
            assert(cur.len() == prev.len());
            assert(forall|j: int| 0 <= j < cur.len() ==> #[trigger] cur[j].0 == prev[j].0);
            assert(forall|j: int| 0 <= j < cur.len() && j != at ==> #[trigger] cur[j] == prev[j]);
            assert(cur[at as int].0@ == notification.topic@);
            assert(topics(cur) =~= topics(prev));
            assert forall|t: Seq<char>| #[trigger] has_client(cur, t) == has_client(prev, t) by {
                if has_client(cur, t) {
                    let j = choose|j: int| 0 <= j < cur.len() && #[trigger] cur[j].0@ == t;
                    assert(prev[j].0@ == t);
                }
                if has_client(prev, t) {
                    let j = choose|j: int| 0 <= j < prev.len() && #[trigger] prev[j].0@ == t;
                    assert(cur[j].0@ == t);
                }
            }
        }
        r
    }
}

/// Store a push certificate and discard the client that was made from the
/// one before: after a rotation no notification goes out under the old
/// certificate.
pub fn rotate_push_cert<S: PushCertStore, C: ApnsConnector>(
    store: &mut S,
    clients: &mut TopicClients<C>,
    body: &str,
) -> (r: Result<PushCertResponse, MdmError>)
    ensures
        match push_cert_of(body@) {
            Err(e) => {
                &&& r matches Err(f) && f == e
                &&& final(store).state() == old(store).state()
                &&& final(clients).clients@ == old(clients).clients@
            },
            Ok((topic, cert_pem, key_pem)) => match r {
                Ok(resp) => {
                    &&& resp.topic@ == topic
                    &&& final(store).state() == old(store).state().store_push_cert(
                        topic,
                        cert_pem,
                        key_pem,
                    )
                    &&& !has_client(final(clients).clients@, topic)
                    &&& forall|t: Seq<char>|
                        t != topic ==> (#[trigger] has_client(final(clients).clients@, t)
                            == has_client(old(clients).clients@, t))
                },
                Err(_) => {
                    &&& store_failed::<S, PushCertResponse>(r)
                    &&& final(store).state() == old(store).state()
                    &&& final(clients).clients@ == old(clients).clients@
                },
            },
        },
{
    match store_push_cert_inner(store, body) {
        Ok(resp) => {
            clients.discard(resp.topic.as_str());
            Ok(resp)
        },
        Err(e) => Err(e),
    }
}

} // verus!
