//! The core MDM service: the check-in and command-report state machines on
//! top of a store.

use vstd::prelude::*;
use vstd::string::*;
use crate::checkin::{
    Authenticate, BootstrapTokenResponse, CheckOut, DeclarativeManagement, GetBootstrapToken,
    GetToken, GetTokenResponse, SetBootstrapToken, TokenUpdate, UserAuthenticate,
};
use crate::command::{opt_queued_view, CommandResults, CommandStatus, QueuedCommand};
use crate::error::MdmError;
use crate::request::Request;
use crate::service::{Checkin, CommandAndReportResults};
use crate::storage::{AllStorage, StoreModel, StoreState};

verus! {

/// Core MDM service implementation.
#[derive(Clone)]
pub struct NanoMdm<S> {
    pub store: S,
}

/// A failure of the persistence layer, which only a store that can fail
/// produces.
pub open spec fn store_failed<S: StoreModel, T>(out: Result<T, MdmError>) -> bool {
    !S::infallible() && out matches Err(MdmError::Storage(_))
}

/// Whether a report carries the result of a command: it names a command, and
/// its status is not `Idle`.
pub open spec fn reports_result(results: &CommandResults) -> bool {
    results.command_uuid@.len() > 0 && results.status != CommandStatus::Idle
}

/// The store after a command report was recorded, if it carried a result.
pub open spec fn after_report(
    s: StoreState,
    id: Seq<char>,
    results: &CommandResults,
) -> StoreState {
    if reports_result(results) {
        s.store_result(id, results.command_uuid@, results.status, results.raw@)
    } else {
        s
    }
}

impl<S> NanoMdm<S> {
    /// Create a new NanoMdm service.
    pub fn new(store: S) -> (r: Self)
        ensures
            r.store == store,
    {
        NanoMdm { store }
    }
}

impl<S: AllStorage> NanoMdm<S> {
    /// An operation that touches no state: it fails on an unresolved
    /// identity, and otherwise leaves everything as it is.
    pub open spec fn no_effect<T>(
        &self,
        next: &Self,
        req: &Request,
        out: Result<Option<T>, MdmError>,
    ) -> bool {
        &&& next.store.state() == self.store.state()
        &&& match req.enroll_id {
            None => out == Err::<Option<T>, MdmError>(MdmError::UnresolvedIdentity),
            Some(_) => out == Ok::<Option<T>, MdmError>(None),
        }
    }
}

impl<S: AllStorage> Checkin for NanoMdm<S> {
    /// The bootstrap token is deleted, then the enrollment is stored, disabled
    /// and with an empty queue. A failing store may stop after the first step.
    open spec fn authenticate_spec(
        &self,
        next: &Self,
        req: &Request,
        msg: &Authenticate,
        out: Result<(), MdmError>,
    ) -> bool {
        let s = self.store.state();
        match req.enroll_id {
            None => out == Err::<(), MdmError>(MdmError::UnresolvedIdentity) && next.store.state() == s,
            Some(id) => {
                let cleared = s.delete_bootstrap_token(id.id@);
                match out {
                    Ok(_) => next.store.state() == cleared.store_authenticate(id@, msg.topic@, msg.raw@),
                    Err(_) => store_failed::<S, ()>(out) && (next.store.state() == s || next.store.state()
                        == cleared),
                }
            },
        }
    }

    open spec fn token_update_spec(
        &self,
        next: &Self,
        req: &Request,
        msg: &TokenUpdate,
        out: Result<(), MdmError>,
    ) -> bool {
        let s = self.store.state();
        match req.enroll_id {
            None => out == Err::<(), MdmError>(MdmError::UnresolvedIdentity) && next.store.state() == s,
            Some(id) => match out {
                Ok(_) => next.store.state() == s.store_token_update(
                    id.id@,
                    msg.push_magic@,
                    msg.token@,
                    msg.raw@,
                ),
                Err(_) => store_failed::<S, ()>(out) && next.store.state() == s,
            },
        }
    }

    open spec fn checkout_spec(
        &self,
        next: &Self,
        req: &Request,
        msg: &CheckOut,
        out: Result<(), MdmError>,
    ) -> bool {
        let s = self.store.state();
        match req.enroll_id {
            None => out == Err::<(), MdmError>(MdmError::UnresolvedIdentity) && next.store.state() == s,
            Some(id) => match out {
                Ok(_) => next.store.state() == s.disable(id.id@),
                Err(_) => store_failed::<S, ()>(out) && next.store.state() == s,
            },
        }
    }

    /// No digest challenge: the answer is empty.
    open spec fn user_authenticate_spec(
        &self,
        next: &Self,
        req: &Request,
        msg: &UserAuthenticate,
        out: Result<Option<Vec<u8>>, MdmError>,
    ) -> bool {
        self.no_effect(next, req, out)
    }

    open spec fn set_bootstrap_token_spec(
        &self,
        next: &Self,
        req: &Request,
        msg: &SetBootstrapToken,
        out: Result<(), MdmError>,
    ) -> bool {
        let s = self.store.state();
        match req.enroll_id {
            None => out == Err::<(), MdmError>(MdmError::UnresolvedIdentity) && next.store.state() == s,
            Some(id) => match out {
                Ok(_) => next.store.state() == s.store_bootstrap_token(id.id@, msg.bootstrap_token@),
                Err(_) => store_failed::<S, ()>(out) && next.store.state() == s,
            },
        }
    }

    /// The stored token, or an empty answer where there is none.
    open spec fn get_bootstrap_token_spec(
        &self,
        next: &Self,
        req: &Request,
        msg: &GetBootstrapToken,
        out: Result<Option<BootstrapTokenResponse>, MdmError>,
    ) -> bool {
        let s = self.store.state();
        &&& next.store.state() == s
        &&& match req.enroll_id {
            None => out == Err::<Option<BootstrapTokenResponse>, MdmError>(
                MdmError::UnresolvedIdentity,
            ),
            Some(id) => match out {
                Ok(Some(resp)) => s.bootstrap_token(id.id@) == Some(resp.bootstrap_token@),
                Ok(None) => s.bootstrap_token(id.id@) is None,
                Err(_) => store_failed::<S, Option<BootstrapTokenResponse>>(out),
            },
        }
    }

    /// The dispatch point of declarative management: nothing is done.
    open spec fn declarative_management_spec(
        &self,
        next: &Self,
        req: &Request,
        msg: &DeclarativeManagement,
        out: Result<Option<Vec<u8>>, MdmError>,
    ) -> bool {
        self.no_effect(next, req, out)
    }

    open spec fn get_token_spec(
        &self,
        next: &Self,
        req: &Request,
        msg: &GetToken,
        out: Result<Option<GetTokenResponse>, MdmError>,
    ) -> bool {
        self.no_effect(next, req, out)
    }

    fn authenticate(&mut self, req: &Request, msg: &Authenticate) -> (out: Result<(), MdmError>) {
        let id = match req.require_enroll_id() {
            Ok(id) => id,
            Err(e) => {
                return Err(e);
            },
        };
        match self.store.delete_bootstrap_token(id) {
            Ok(_) => {},
            Err(e) => {
                return Err(MdmError::Storage(e));
            },
        }
        match self.store.store_authenticate(id, msg) {
            Ok(_) => Ok(()),
            Err(e) => Err(MdmError::Storage(e)),
        }
    }

    fn token_update(&mut self, req: &Request, msg: &TokenUpdate) -> (out: Result<(), MdmError>) {
        let id = match req.require_enroll_id() {
            Ok(id) => id,
            Err(e) => {
                return Err(e);
            },
        };
        match self.store.store_token_update(id, msg) {
            Ok(_) => Ok(()),
            Err(e) => Err(MdmError::Storage(e)),
        }
    }

    fn checkout(&mut self, req: &Request, msg: &CheckOut) -> (out: Result<(), MdmError>) {
        let id = match req.require_enroll_id() {
            Ok(id) => id,
            Err(e) => {
                return Err(e);
            },
        };
        match self.store.store_checkout(id, msg) {
            Ok(_) => Ok(()),
            Err(e) => Err(MdmError::Storage(e)),
        }
    }

    fn user_authenticate(&mut self, req: &Request, msg: &UserAuthenticate) -> (out: Result<Option<Vec<u8>>, MdmError>) {
        match req.require_enroll_id() {
            Ok(_) => Ok(None),
            Err(e) => Err(e),
        }
    }

    fn set_bootstrap_token(&mut self, req: &Request, msg: &SetBootstrapToken) -> (out: Result<(), MdmError>) {
        let id = match req.require_enroll_id() {
            Ok(id) => id,
            Err(e) => {
                return Err(e);
            },
        };
        match self.store.store_bootstrap_token(id, msg.bootstrap_token.as_slice()) {
            Ok(_) => Ok(()),
            Err(e) => Err(MdmError::Storage(e)),
        }
    }

    fn get_bootstrap_token(&mut self, req: &Request, msg: &GetBootstrapToken) -> (out: Result<Option<BootstrapTokenResponse>, MdmError>) {
        let id = match req.require_enroll_id() {
            Ok(id) => id,
            Err(e) => {
                return Err(e);
            },
        };
        match self.store.get_bootstrap_token(id) {
            Ok(Some(t)) => Ok(Some(BootstrapTokenResponse { bootstrap_token: t })),
            Ok(None) => Ok(None),
            Err(e) => Err(MdmError::Storage(e)),
        }
    }

    fn declarative_management(
        &mut self,
        req: &Request,
        msg: &DeclarativeManagement,
    ) -> (out: Result<Option<Vec<u8>>, MdmError>) {
        match req.require_enroll_id() {
            Ok(_) => Ok(None),
            Err(e) => Err(e),
        }
    }

    fn get_token(&mut self, req: &Request, msg: &GetToken) -> (out: Result<Option<GetTokenResponse>, MdmError>) {
        match req.require_enroll_id() {
            Ok(_) => Ok(None),
            Err(e) => Err(e),
        }
    }
}

impl<S: AllStorage> CommandAndReportResults for NanoMdm<S> {
    /// A report that carries a result is recorded first. Then the oldest
    /// command that was not handed out yet is taken from the queue, marked as
    /// dispatched, and returned. A failing store may stop after the first
    /// step.
    open spec fn command_and_report_results_spec(
        &self,
        next: &Self,
        req: &Request,
        results: &CommandResults,
        out: Result<Option<QueuedCommand>, MdmError>,
    ) -> bool {
        let s = self.store.state();
        match req.enroll_id {
            None => out == Err::<Option<QueuedCommand>, MdmError>(MdmError::UnresolvedIdentity)
                && next.store.state() == s,
            Some(id) => {
                let recorded = after_report(s, id.id@, results);
                match out {
                    Ok(q) => {
                        &&& opt_queued_view(q) == recorded.next_command(id.id@)
                        &&& next.store.state() == recorded.after_next_command(id.id@)
                    },
                    Err(_) => store_failed::<S, Option<QueuedCommand>>(out) && (next.store.state() == s
                        || next.store.state() == recorded),
                }
            },
        }
    }

    fn command_and_report_results(
        &mut self,
        req: &Request,
        results: &CommandResults,
    ) -> (out: Result<Option<QueuedCommand>, MdmError>) {
        let id = match req.require_enroll_id() {
            Ok(id) => id,
            Err(e) => {
                return Err(e);
            },
        };
        let idle = match results.status {
            CommandStatus::Idle => true,
            _ => false,
        };
        if !results.command_uuid.as_str().is_empty() && !idle {
            match self.store.store_result(id, results) {
                Ok(_) => {},
                Err(e) => {
                    return Err(MdmError::Storage(e));
                },
            }
        }
        match self.store.next_command(id) {
            Ok(q) => Ok(q),
            Err(e) => Err(MdmError::Storage(e)),
        }
    }
}

/// After a successful `Authenticate` the enrollment is disabled, its queue
/// is empty, it has no bootstrap token and no command to receive.
pub proof fn lemma_authenticate_resets<S: AllStorage>(
    before: NanoMdm<S>,
    after: NanoMdm<S>,
    req: &Request,
    msg: &Authenticate,
)
    requires
        before.authenticate_spec(&after, req, msg, Ok(())),
    ensures
        req.enroll_id matches Some(id) && {
            &&& after.store.state().is_disabled(id.id@)
            &&& after.store.state().queue(id.id@).len() == 0
            &&& after.store.state().next_command(id.id@) is None
            &&& after.store.state().bootstrap_token(id.id@) is None
            &&& after.store.state().push_info(id.id@) is None
        },
{
    let id = req.enroll_id->0;
    let cleared = before.store.state().delete_bootstrap_token(id.id@);
    crate::invariants::lemma_authenticate_resets(cleared, id@, msg.topic@, msg.raw@);
}

/// After a successful `Authenticate` and then a successful `TokenUpdate` of
/// the same enrollment, the enrollment is enabled, and its push credentials
/// are the token and push magic of the update under the topic it
/// authenticated with.
pub proof fn lemma_enrollment_completes<S: AllStorage>(
    before: NanoMdm<S>,
    authenticated: NanoMdm<S>,
    enrolled: NanoMdm<S>,
    req: &Request,
    auth: &Authenticate,
    update: &TokenUpdate,
)
    requires
        before.authenticate_spec(&authenticated, req, auth, Ok(())),
        authenticated.token_update_spec(&enrolled, req, update, Ok(())),
    ensures
        req.enroll_id matches Some(id) && {
            &&& !enrolled.store.state().is_disabled(id.id@)
            &&& enrolled.store.state().push_info(id.id@) == Some(
                crate::push::PushInfoView {
                    token: update.token@,
                    push_magic: update.push_magic@,
                    topic: auth.topic@,
                },
            )
        },
{
}

/// After a successful `CheckOut` the enrollment is disabled and cannot be
/// pushed to.
pub proof fn lemma_checkout_disables<S: AllStorage>(
    before: NanoMdm<S>,
    after: NanoMdm<S>,
    req: &Request,
    msg: &CheckOut,
)
    requires
        before.checkout_spec(&after, req, msg, Ok(())),
    ensures
        req.enroll_id matches Some(id) && {
            &&& after.store.state().is_disabled(id.id@)
            &&& after.store.state().push_info(id.id@) is None
        },
{
}

/// With a store that does not fail, a request with a resolved identity is
/// served: every operation of the service succeeds.
pub proof fn lemma_success_is_owed<S: AllStorage>(
    before: NanoMdm<S>,
    after: NanoMdm<S>,
    req: &Request,
    results: &CommandResults,
    auth: &Authenticate,
    out: Result<Option<QueuedCommand>, MdmError>,
    done: Result<(), MdmError>,
)
    requires
        S::infallible(),
        req.enroll_id is Some,
    ensures
        before.command_and_report_results_spec(&after, req, results, out) ==> out is Ok,
        before.authenticate_spec(&after, req, auth, done) ==> done is Ok,
{
}

} // verus!
