//! Multi-service composition: one primary service, whose outcome is the
//! outcome, and secondary services that observe.

use vstd::prelude::*;
use crate::checkin::{
    Authenticate, BootstrapTokenResponse, CheckOut, DeclarativeManagement, GetBootstrapToken,
    GetToken, GetTokenResponse, SetBootstrapToken, TokenUpdate, UserAuthenticate,
};
use crate::command::{CommandResults, QueuedCommand};
use crate::error::MdmError;
use crate::request::Request;
use crate::service::{Checkin, CommandAndReportResults};

verus! {

/// Compose multiple services - primary returns values, others run as side-effects.
pub struct MultiService<P, S> {
    pub primary: P,
    pub secondary: Vec<S>,
}

impl<P, S> MultiService<P, S> {
    /// Create a new multi-service with a primary and secondary services.
    pub fn new(primary: P, secondary: Vec<S>) -> (r: Self)
        ensures
            r.primary == primary,
            r.secondary == secondary,
    {
        MultiService { primary, secondary }
    }

    /// Add a secondary service.
    pub fn with_secondary(self, service: S) -> (r: Self)
        ensures
            r.primary == self.primary,
            r.secondary@ == self.secondary@.push(service),
    {
        let mut secondary = self.secondary;
        secondary.push(service);
        MultiService { primary: self.primary, secondary }
    }
}

/// `after` is `before` once it has handled the message, whatever came of it.
pub open spec fn ran_authenticate<S: Checkin>(
    before: S,
    after: S,
    req: &Request,
    msg: &Authenticate,
) -> bool {
    exists|out: Result<(), MdmError>| #[trigger] before.authenticate_spec(&after, req, msg, out)
}

/// Each secondary service has handled the message once, in place.
pub open spec fn each_ran_authenticate<S: Checkin>(
    before: Seq<S>,
    after: Seq<S>,
    req: &Request,
    msg: &Authenticate,
) -> bool {
    &&& after.len() == before.len()
    &&& forall|i: int|
        0 <= i < before.len() ==> ran_authenticate(#[trigger] before[i], after[i], req, msg)
}

/// Hands the message to every secondary service and drops what they answer.
fn notify_authenticate<S: Checkin>(services: &mut Vec<S>, req: &Request, msg: &Authenticate)
    ensures
        each_ran_authenticate(old(services)@, final(services)@, req, msg),
{
    let ghost before = services@;
    let mut i: usize = 0;
    while i < services.len()
        invariant
            i <= services@.len(),
            services@.len() == before.len(),
            forall|j: int|
                0 <= j < i ==> ran_authenticate(#[trigger] before[j], services@[j], req, msg),
            forall|j: int| i <= j < before.len() ==> services@[j] == before[j],
        decreases services@.len() - i,
    {
        let ghost prev = services@;
        let out = services[i].authenticate(req, msg);
        proof {
            assert(services@ == prev.update(i as int, services@[i as int]));
            assert(before[i as int].authenticate_spec(&services@[i as int], req, msg, out));
        }
        i += 1;
    }
}

/// `after` is `before` once it has handled the message, whatever came of it.
pub open spec fn ran_token_update<S: Checkin>(
    before: S,
    after: S,
    req: &Request,
    msg: &TokenUpdate,
) -> bool {
    exists|out: Result<(), MdmError>| #[trigger] before.token_update_spec(&after, req, msg, out)
}

/// Each secondary service has handled the message once, in place.
pub open spec fn each_ran_token_update<S: Checkin>(
    before: Seq<S>,
    after: Seq<S>,
    req: &Request,
    msg: &TokenUpdate,
) -> bool {
    &&& after.len() == before.len()
    &&& forall|i: int|
        0 <= i < before.len() ==> ran_token_update(#[trigger] before[i], after[i], req, msg)
}

/// Hands the message to every secondary service and drops what they answer.
fn notify_token_update<S: Checkin>(services: &mut Vec<S>, req: &Request, msg: &TokenUpdate)
    ensures
        each_ran_token_update(old(services)@, final(services)@, req, msg),
{
    let ghost before = services@;
    let mut i: usize = 0;
    while i < services.len()
        invariant
            i <= services@.len(),
            services@.len() == before.len(),
            forall|j: int|
                0 <= j < i ==> ran_token_update(#[trigger] before[j], services@[j], req, msg),
            forall|j: int| i <= j < before.len() ==> services@[j] == before[j],
        decreases services@.len() - i,
    {
        let ghost prev = services@;
        let out = services[i].token_update(req, msg);
        proof {
            assert(services@ == prev.update(i as int, services@[i as int]));
            assert(before[i as int].token_update_spec(&services@[i as int], req, msg, out));
        }
        i += 1;
    }
}

/// `after` is `before` once it has handled the message, whatever came of it.
pub open spec fn ran_checkout<S: Checkin>(
    before: S,
    after: S,
    req: &Request,
    msg: &CheckOut,
) -> bool {
    exists|out: Result<(), MdmError>| #[trigger] before.checkout_spec(&after, req, msg, out)
}

/// Each secondary service has handled the message once, in place.
pub open spec fn each_ran_checkout<S: Checkin>(
    before: Seq<S>,
    after: Seq<S>,
    req: &Request,
    msg: &CheckOut,
) -> bool {
    &&& after.len() == before.len()
    &&& forall|i: int|
        0 <= i < before.len() ==> ran_checkout(#[trigger] before[i], after[i], req, msg)
}

/// Hands the message to every secondary service and drops what they answer.
fn notify_checkout<S: Checkin>(services: &mut Vec<S>, req: &Request, msg: &CheckOut)
    ensures
        each_ran_checkout(old(services)@, final(services)@, req, msg),
{
    let ghost before = services@;
    let mut i: usize = 0;
    while i < services.len()
        invariant
            i <= services@.len(),
            services@.len() == before.len(),
            forall|j: int|
                0 <= j < i ==> ran_checkout(#[trigger] before[j], services@[j], req, msg),
            forall|j: int| i <= j < before.len() ==> services@[j] == before[j],
        decreases services@.len() - i,
    {
        let ghost prev = services@;
        let out = services[i].checkout(req, msg);
        proof {
            assert(services@ == prev.update(i as int, services@[i as int]));
            assert(before[i as int].checkout_spec(&services@[i as int], req, msg, out));
        }
        i += 1;
    }
}

/// `after` is `before` once it has handled the message, whatever came of it.
pub open spec fn ran_user_authenticate<S: Checkin>(
    before: S,
    after: S,
    req: &Request,
    msg: &UserAuthenticate,
) -> bool {
    exists|out: Result<Option<Vec<u8>>, MdmError>|
        #[trigger] before.user_authenticate_spec(&after, req, msg, out)
}

/// Each secondary service has handled the message once, in place.
pub open spec fn each_ran_user_authenticate<S: Checkin>(
    before: Seq<S>,
    after: Seq<S>,
    req: &Request,
    msg: &UserAuthenticate,
) -> bool {
    &&& after.len() == before.len()
    &&& forall|i: int|
        0 <= i < before.len() ==> ran_user_authenticate(#[trigger] before[i], after[i], req, msg)
}

/// Hands the message to every secondary service and drops what they answer.
fn notify_user_authenticate<S: Checkin>(
    services: &mut Vec<S>,
    req: &Request,
    msg: &UserAuthenticate,
)
    ensures
        each_ran_user_authenticate(old(services)@, final(services)@, req, msg),
{
    let ghost before = services@;
    let mut i: usize = 0;
    while i < services.len()
        invariant
            i <= services@.len(),
            services@.len() == before.len(),
            forall|j: int|
                0 <= j < i ==> ran_user_authenticate(#[trigger] before[j], services@[j], req, msg),
            forall|j: int| i <= j < before.len() ==> services@[j] == before[j],
        decreases services@.len() - i,
    {
        let ghost prev = services@;
        let out = services[i].user_authenticate(req, msg);
        proof {
            assert(services@ == prev.update(i as int, services@[i as int]));
            assert(before[i as int].user_authenticate_spec(&services@[i as int], req, msg, out));
        }
        i += 1;
    }
}

/// `after` is `before` once it has handled the message, whatever came of it.
pub open spec fn ran_set_bootstrap_token<S: Checkin>(
    before: S,
    after: S,
    req: &Request,
    msg: &SetBootstrapToken,
) -> bool {
    exists|out: Result<(), MdmError>|
        #[trigger] before.set_bootstrap_token_spec(&after, req, msg, out)
}

/// Each secondary service has handled the message once, in place.
pub open spec fn each_ran_set_bootstrap_token<S: Checkin>(
    before: Seq<S>,
    after: Seq<S>,
    req: &Request,
    msg: &SetBootstrapToken,
) -> bool {
    &&& after.len() == before.len()
    &&& forall|i: int|
        0 <= i < before.len() ==> ran_set_bootstrap_token(#[trigger] before[i], after[i], req, msg)
}

/// Hands the message to every secondary service and drops what they answer.
fn notify_set_bootstrap_token<S: Checkin>(
    services: &mut Vec<S>,
    req: &Request,
    msg: &SetBootstrapToken,
)
    ensures
        each_ran_set_bootstrap_token(old(services)@, final(services)@, req, msg),
{
    let ghost before = services@;
    let mut i: usize = 0;
    while i < services.len()
        invariant
            i <= services@.len(),
            services@.len() == before.len(),
            forall|j: int|
                0 <= j < i ==>
                    ran_set_bootstrap_token(#[trigger] before[j], services@[j], req, msg),
            forall|j: int| i <= j < before.len() ==> services@[j] == before[j],
        decreases services@.len() - i,
    {
        let ghost prev = services@;
        let out = services[i].set_bootstrap_token(req, msg);
        proof {
            assert(services@ == prev.update(i as int, services@[i as int]));
            assert(before[i as int].set_bootstrap_token_spec(&services@[i as int], req, msg, out));
        }
        i += 1;
    }
}

/// `after` is `before` once it has handled the message, whatever came of it.
pub open spec fn ran_command_and_report_results<S: CommandAndReportResults>(
    before: S,
    after: S,
    req: &Request,
    results: &CommandResults,
) -> bool {
    exists|out: Result<Option<QueuedCommand>, MdmError>|
        #[trigger] before.command_and_report_results_spec(&after, req, results, out)
}

/// Each secondary service has handled the message once, in place.
pub open spec fn each_ran_command_and_report_results<S: CommandAndReportResults>(
    before: Seq<S>,
    after: Seq<S>,
    req: &Request,
    results: &CommandResults,
) -> bool {
    &&& after.len() == before.len()
    &&& forall|i: int|
        0 <= i < before.len() ==>
            ran_command_and_report_results(#[trigger] before[i], after[i], req, results)
}

/// Hands the message to every secondary service and drops what they answer.
fn notify_command_and_report_results<S: CommandAndReportResults>(
    services: &mut Vec<S>,
    req: &Request,
    results: &CommandResults,
)
    ensures
        each_ran_command_and_report_results(old(services)@, final(services)@, req, results),
{
    let ghost before = services@;
    let mut i: usize = 0;
    while i < services.len()
        invariant
            i <= services@.len(),
            services@.len() == before.len(),
            forall|j: int|
                0 <= j < i ==>
                    ran_command_and_report_results(#[trigger] before[j], services@[j], req, results),
            forall|j: int| i <= j < before.len() ==> services@[j] == before[j],
        decreases services@.len() - i,
    {
        let ghost prev = services@;
        let out = services[i].command_and_report_results(req, results);
        proof {
            assert(services@ == prev.update(i as int, services@[i as int]));
            assert(before[i as int].command_and_report_results_spec(&services@[i as int], req, results, out));
        }
        i += 1;
    }
}

impl<P: Checkin, S: Checkin> Checkin for MultiService<P, S> {
    /// The primary handles the message and its outcome is returned. Where it
    /// succeeded, every secondary handles the message too, and what comes of
    /// that is not surfaced; where it failed, no secondary is touched.
    open spec fn authenticate_spec(
        &self,
        next: &Self,
        req: &Request,
        msg: &Authenticate,
        out: Result<(), MdmError>,
    ) -> bool {
        &&& self.primary.authenticate_spec(&next.primary, req, msg, out)
        &&& if out is Ok {
            each_ran_authenticate(self.secondary@, next.secondary@, req, msg)
        } else {
            next.secondary@ == self.secondary@
        }
    }

    /// The primary handles the message and its outcome is returned. Where it
    /// succeeded, every secondary handles the message too, and what comes of
    /// that is not surfaced; where it failed, no secondary is touched.
    open spec fn token_update_spec(
        &self,
        next: &Self,
        req: &Request,
        msg: &TokenUpdate,
        out: Result<(), MdmError>,
    ) -> bool {
        &&& self.primary.token_update_spec(&next.primary, req, msg, out)
        &&& if out is Ok {
            each_ran_token_update(self.secondary@, next.secondary@, req, msg)
        } else {
            next.secondary@ == self.secondary@
        }
    }

    /// The primary handles the message and its outcome is returned. Where it
    /// succeeded, every secondary handles the message too, and what comes of
    /// that is not surfaced; where it failed, no secondary is touched.
    open spec fn checkout_spec(
        &self,
        next: &Self,
        req: &Request,
        msg: &CheckOut,
        out: Result<(), MdmError>,
    ) -> bool {
        &&& self.primary.checkout_spec(&next.primary, req, msg, out)
        &&& if out is Ok {
            each_ran_checkout(self.secondary@, next.secondary@, req, msg)
        } else {
            next.secondary@ == self.secondary@
        }
    }

    /// The primary handles the message and its outcome is returned. Where it
    /// succeeded, every secondary handles the message too, and what comes of
    /// that is not surfaced; where it failed, no secondary is touched.
    open spec fn user_authenticate_spec(
        &self,
        next: &Self,
        req: &Request,
        msg: &UserAuthenticate,
        out: Result<Option<Vec<u8>>, MdmError>,
    ) -> bool {
        &&& self.primary.user_authenticate_spec(&next.primary, req, msg, out)
        &&& if out is Ok {
            each_ran_user_authenticate(self.secondary@, next.secondary@, req, msg)
        } else {
            next.secondary@ == self.secondary@
        }
    }

    /// The primary handles the message and its outcome is returned. Where it
    /// succeeded, every secondary handles the message too, and what comes of
    /// that is not surfaced; where it failed, no secondary is touched.
    open spec fn set_bootstrap_token_spec(
        &self,
        next: &Self,
        req: &Request,
        msg: &SetBootstrapToken,
        out: Result<(), MdmError>,
    ) -> bool {
        &&& self.primary.set_bootstrap_token_spec(&next.primary, req, msg, out)
        &&& if out is Ok {
            each_ran_set_bootstrap_token(self.secondary@, next.secondary@, req, msg)
        } else {
            next.secondary@ == self.secondary@
        }
    }

    /// Only the primary answers; no secondary is touched.
    open spec fn get_bootstrap_token_spec(
        &self,
        next: &Self,
        req: &Request,
        msg: &GetBootstrapToken,
        out: Result<Option<BootstrapTokenResponse>, MdmError>,
    ) -> bool {
        &&& self.primary.get_bootstrap_token_spec(&next.primary, req, msg, out)
        &&& next.secondary@ == self.secondary@
    }

    /// Only the primary answers; no secondary is touched.
    open spec fn declarative_management_spec(
        &self,
        next: &Self,
        req: &Request,
        msg: &DeclarativeManagement,
        out: Result<Option<Vec<u8>>, MdmError>,
    ) -> bool {
        &&& self.primary.declarative_management_spec(&next.primary, req, msg, out)
        &&& next.secondary@ == self.secondary@
    }

    /// Only the primary answers; no secondary is touched.
    open spec fn get_token_spec(
        &self,
        next: &Self,
        req: &Request,
        msg: &GetToken,
        out: Result<Option<GetTokenResponse>, MdmError>,
    ) -> bool {
        &&& self.primary.get_token_spec(&next.primary, req, msg, out)
        &&& next.secondary@ == self.secondary@
    }

    fn authenticate(&mut self, req: &Request, msg: &Authenticate) -> (out: Result<(), MdmError>) {
        let out = self.primary.authenticate(req, msg);
        if out.is_ok() {
            notify_authenticate(&mut self.secondary, req, msg);
        }
        out
    }

    fn token_update(&mut self, req: &Request, msg: &TokenUpdate) -> (out: Result<(), MdmError>) {
        let out = self.primary.token_update(req, msg);
        if out.is_ok() {
            notify_token_update(&mut self.secondary, req, msg);
        }
        out
    }

    fn checkout(&mut self, req: &Request, msg: &CheckOut) -> (out: Result<(), MdmError>) {
        let out = self.primary.checkout(req, msg);
        if out.is_ok() {
            notify_checkout(&mut self.secondary, req, msg);
        }
        out
    }

    fn user_authenticate(
        &mut self,
        req: &Request,
        msg: &UserAuthenticate,
    ) -> (out: Result<Option<Vec<u8>>, MdmError>) {
        let out = self.primary.user_authenticate(req, msg);
        if out.is_ok() {
            notify_user_authenticate(&mut self.secondary, req, msg);
        }
        out
    }

    fn set_bootstrap_token(
        &mut self,
        req: &Request,
        msg: &SetBootstrapToken,
    ) -> (out: Result<(), MdmError>) {
        let out = self.primary.set_bootstrap_token(req, msg);
        if out.is_ok() {
            notify_set_bootstrap_token(&mut self.secondary, req, msg);
        }
        out
    }

    fn get_bootstrap_token(
        &mut self,
        req: &Request,
        msg: &GetBootstrapToken,
    ) -> (out: Result<Option<BootstrapTokenResponse>, MdmError>) {
        self.primary.get_bootstrap_token(req, msg)
    }

    fn declarative_management(
        &mut self,
        req: &Request,
        msg: &DeclarativeManagement,
    ) -> (out: Result<Option<Vec<u8>>, MdmError>) {
        self.primary.declarative_management(req, msg)
    }

    fn get_token(
        &mut self,
        req: &Request,
        msg: &GetToken,
    ) -> (out: Result<Option<GetTokenResponse>, MdmError>) {
        self.primary.get_token(req, msg)
    }

}

impl<P: CommandAndReportResults, S: CommandAndReportResults> CommandAndReportResults for MultiService<P, S> {
    /// The primary records the report and gives the next command. Where it
    /// succeeded, every secondary sees the report too, and what comes of that
    /// is not surfaced; where it failed, no secondary is touched.
    open spec fn command_and_report_results_spec(
        &self,
        next: &Self,
        req: &Request,
        results: &CommandResults,
        out: Result<Option<QueuedCommand>, MdmError>,
    ) -> bool {
        &&& self.primary.command_and_report_results_spec(&next.primary, req, results, out)
        &&& if out is Ok {
            each_ran_command_and_report_results(self.secondary@, next.secondary@, req, results)
        } else {
            next.secondary@ == self.secondary@
        }
    }

    fn command_and_report_results(
        &mut self,
        req: &Request,
        results: &CommandResults,
    ) -> (out: Result<Option<QueuedCommand>, MdmError>) {
        let out = self.primary.command_and_report_results(req, results);
        if out.is_ok() {
            notify_command_and_report_results(&mut self.secondary, req, results);
        }
        out
    }
}

/// The outcome of a fan-out is the primary's outcome: whatever the
/// secondary services are and do, the composition reports what the primary
/// alone would have reported, and the primary ends where it would have
/// ended alone.
pub proof fn lemma_primary_decides<P: Checkin, S: Checkin>(
    before: MultiService<P, S>,
    after: MultiService<P, S>,
    req: &Request,
    auth: &Authenticate,
    get: &GetBootstrapToken,
    done: Result<(), MdmError>,
    token: Result<Option<BootstrapTokenResponse>, MdmError>,
)
    ensures
        before.authenticate_spec(&after, req, auth, done) ==> before.primary.authenticate_spec(
            &after.primary,
            req,
            auth,
            done,
        ),
        before.authenticate_spec(&after, req, auth, done) && done is Err ==> after.secondary@
            == before.secondary@,
        before.get_bootstrap_token_spec(&after, req, get, token) ==> after.secondary@
            == before.secondary@ && before.primary.get_bootstrap_token_spec(
            &after.primary,
            req,
            get,
            token,
        ),
{
}

} // verus!
