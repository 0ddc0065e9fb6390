//! Certificate authentication: a wrapper that lets a request through only
//! with the certificate that the enrollment authenticated with.

use vstd::prelude::*;
use crate::cert::{checked_cert_hash, sha256, HASH_INPUT_LIMIT};
use crate::checkin::{
    Authenticate, BootstrapTokenResponse, CheckOut, DeclarativeManagement, GetBootstrapToken,
    GetToken, GetTokenResponse, SetBootstrapToken, TokenUpdate, UserAuthenticate,
};
use crate::command::{CommandResults, QueuedCommand};
use crate::error::MdmError;
use crate::request::Request;
use crate::service::{Checkin, CommandAndReportResults};
use crate::storage::{CertAuthStore, StoreModel, StoreState};

verus! {

/// Certificate authentication service wrapper.
///
/// Validates that requests come from enrolled certificates.
pub struct CertAuthService<S, I> {
    pub store: S,
    pub inner: I,
}

/// The hash under which a certificate is bound, where it can be hashed.
pub open spec fn binding_hash(cert: Seq<u8>) -> Option<Seq<u8>> {
    if cert.len() < HASH_INPUT_LIMIT {
        Some(sha256(cert))
    } else {
        None
    }
}

/// The enrollment and certificate hash that a request presents, where it
/// has both.
pub open spec fn presented(req: &Request) -> Option<(Seq<char>, Seq<u8>)> {
    match (req.enroll_id, req.certificate) {
        (Some(id), Some(cert)) => match binding_hash(cert@) {
            Some(h) => Some((id.id@, h)),
            None => None,
        },
        _ => None,
    }
}

/// Whether the request comes with the certificate of its enrollment: it
/// has a resolved identity and a certificate whose hash is bound to it.
pub open spec fn admitted(bindings: StoreState, req: &Request) -> bool {
    presented(req) matches Some((id, h)) && bindings.has_cert_auth(id, h)
}

/// Whether `e` is the error that refuses the request: an unresolved
/// identity; else a missing certificate or an unknown hash, both
/// unauthorized. A store that can fail may also fail the look-up.
pub open spec fn refused<S: StoreModel>(bindings: StoreState, req: &Request, e: MdmError) -> bool {
    if req.enroll_id is None {
        e == MdmError::UnresolvedIdentity
    } else if presented(req) is None {
        e == MdmError::Unauthorized
    } else {
        ||| !admitted(bindings, req) && e == MdmError::Unauthorized
        ||| !S::infallible() && e is Storage
    }
}

impl<S, I> CertAuthService<S, I> {
    /// Create a new cert auth service.
    pub fn new(store: S, inner: I) -> (r: Self)
        ensures
            r.store == store,
            r.inner == inner,
    {
        CertAuthService { store, inner }
    }
}

impl<S: CertAuthStore, I> CertAuthService<S, I> {
    /// Lets through a request that is admitted, and refuses any other.
    pub fn validate_cert(&self, req: &Request) -> (r: Result<(), MdmError>)
        ensures
            match r {
                Ok(_) => admitted(self.store.state(), req),
                Err(e) => refused::<S>(self.store.state(), req, e),
            },
    {
        let id = match req.require_enroll_id() {
            Ok(id) => id,
            Err(e) => {
                return Err(e);
            },
        };
        let cert = match &req.certificate {
            Some(cert) => cert,
            None => {
                return Err(MdmError::Unauthorized);
            },
        };
        let hash = match checked_cert_hash(cert.as_slice()) {
            Some(h) => h,
            None => {
                return Err(MdmError::Unauthorized);
            },
        };
        match self.store.has_cert_auth(id, hash.as_slice()) {
            Ok(true) => Ok(()),
            Ok(false) => Err(MdmError::Unauthorized),
            Err(e) => Err(MdmError::Storage(e)),
        }
    }

    /// The handler as it is once a request was judged: the bindings are
    /// untouched, and a refusal leaves the inner handler alone.
    pub open spec fn gate<T>(
        &self,
        next: &Self,
        req: &Request,
        out: Result<T, MdmError>,
        inner_ran: bool,
    ) -> bool {
        &&& next.store.state() == self.store.state()
        &&& {
            ||| admitted(self.store.state(), req) && inner_ran
            ||| out matches Err(e) && refused::<S>(self.store.state(), req, e) && next.inner
                == self.inner
        }
    }
}

impl<S: CertAuthStore, I: Checkin> Checkin for CertAuthService<S, I> {
    /// Trust on first use: the presented certificate is bound to the
    /// enrollment, then the inner handler authenticates. Without both an
    /// identity and a certificate nothing is bound. A store that fails to
    /// bind stops the request before the inner handler sees it.
    open spec fn authenticate_spec(
        &self,
        next: &Self,
        req: &Request,
        msg: &Authenticate,
        out: Result<(), MdmError>,
    ) -> bool {
        let s = self.store.state();
        let bound = match presented(req) {
            Some((id, h)) => s.associate_cert(id, h),
            None => s,
        };
        ||| next.store.state() == bound && self.inner.authenticate_spec(&next.inner, req, msg, out)
        ||| {
            &&& presented(req) is Some
            &&& !S::infallible()
            &&& out matches Err(MdmError::Storage(_))
            &&& next.store.state() == s
            &&& next.inner == self.inner
        }
    }

    open spec fn token_update_spec(
        &self,
        next: &Self,
        req: &Request,
        msg: &TokenUpdate,
        out: Result<(), MdmError>,
    ) -> bool {
        self.gate(next, req, out, self.inner.token_update_spec(&next.inner, req, msg, out))
    }

    open spec fn checkout_spec(
        &self,
        next: &Self,
        req: &Request,
        msg: &CheckOut,
        out: Result<(), MdmError>,
    ) -> bool {
        self.gate(next, req, out, self.inner.checkout_spec(&next.inner, req, msg, out))
    }

    open spec fn user_authenticate_spec(
        &self,
        next: &Self,
        req: &Request,
        msg: &UserAuthenticate,
        out: Result<Option<Vec<u8>>, MdmError>,
    ) -> bool {
        self.gate(next, req, out, self.inner.user_authenticate_spec(&next.inner, req, msg, out))
    }

    open spec fn set_bootstrap_token_spec(
        &self,
        next: &Self,
        req: &Request,
        msg: &SetBootstrapToken,
        out: Result<(), MdmError>,
    ) -> bool {
        self.gate(next, req, out, self.inner.set_bootstrap_token_spec(&next.inner, req, msg, out))
    }

    open spec fn get_bootstrap_token_spec(
        &self,
        next: &Self,
        req: &Request,
        msg: &GetBootstrapToken,
        out: Result<Option<BootstrapTokenResponse>, MdmError>,
    ) -> bool {
        self.gate(next, req, out, self.inner.get_bootstrap_token_spec(&next.inner, req, msg, out))
    }

    open spec fn declarative_management_spec(
        &self,
        next: &Self,
        req: &Request,
        msg: &DeclarativeManagement,
        out: Result<Option<Vec<u8>>, MdmError>,
    ) -> bool {
        self.gate(next, req, out, self.inner.declarative_management_spec(&next.inner, req, msg, out))
    }

    open spec fn get_token_spec(
        &self,
        next: &Self,
        req: &Request,
        msg: &GetToken,
        out: Result<Option<GetTokenResponse>, MdmError>,
    ) -> bool {
        self.gate(next, req, out, self.inner.get_token_spec(&next.inner, req, msg, out))
    }

    fn authenticate(&mut self, req: &Request, msg: &Authenticate) -> (out: Result<(), MdmError>) {
        match (&req.enroll_id, &req.certificate) {
            (Some(id), Some(cert)) => {
                match checked_cert_hash(cert.as_slice()) {
                    Some(hash) => {
                        match self.store.associate_cert(id, hash.as_slice()) {
                            Ok(_) => {},
                            Err(e) => {
                                return Err(MdmError::Storage(e));
                            },
                        }
                    },
                    None => {},
                }
            },
            _ => {},
        }
        self.inner.authenticate(req, msg)
    }

    fn token_update(&mut self, req: &Request, msg: &TokenUpdate) -> (out: Result<(), MdmError>) {
        match self.validate_cert(req) {
            Ok(_) => self.inner.token_update(req, msg),
            Err(e) => Err(e),
        }
    }

    fn checkout(&mut self, req: &Request, msg: &CheckOut) -> (out: Result<(), MdmError>) {
        match self.validate_cert(req) {
            Ok(_) => self.inner.checkout(req, msg),
            Err(e) => Err(e),
        }
    }

    fn user_authenticate(
        &mut self,
        req: &Request,
        msg: &UserAuthenticate,
    ) -> (out: Result<Option<Vec<u8>>, MdmError>) {
        match self.validate_cert(req) {
            Ok(_) => self.inner.user_authenticate(req, msg),
            Err(e) => Err(e),
        }
    }

    fn set_bootstrap_token(
        &mut self,
        req: &Request,
        msg: &SetBootstrapToken,
    ) -> (out: Result<(), MdmError>) {
        match self.validate_cert(req) {
            Ok(_) => self.inner.set_bootstrap_token(req, msg),
            Err(e) => Err(e),
        }
    }

    fn get_bootstrap_token(
        &mut self,
        req: &Request,
        msg: &GetBootstrapToken,
    ) -> (out: Result<Option<BootstrapTokenResponse>, MdmError>) {
        match self.validate_cert(req) {
            Ok(_) => self.inner.get_bootstrap_token(req, msg),
            Err(e) => Err(e),
        }
    }

    fn declarative_management(
        &mut self,
        req: &Request,
        msg: &DeclarativeManagement,
    ) -> (out: Result<Option<Vec<u8>>, MdmError>) {
        match self.validate_cert(req) {
            Ok(_) => self.inner.declarative_management(req, msg),
            Err(e) => Err(e),
        }
    }

    fn get_token(
        &mut self,
        req: &Request,
        msg: &GetToken,
    ) -> (out: Result<Option<GetTokenResponse>, MdmError>) {
        match self.validate_cert(req) {
            Ok(_) => self.inner.get_token(req, msg),
            Err(e) => Err(e),
        }
    }

}

impl<S: CertAuthStore, I: CommandAndReportResults> CommandAndReportResults for CertAuthService<S, I> {
    open spec fn command_and_report_results_spec(
        &self,
        next: &Self,
        req: &Request,
        results: &CommandResults,
        out: Result<Option<QueuedCommand>, MdmError>,
    ) -> bool {
        self.gate(
            next,
            req,
            out,
            self.inner.command_and_report_results_spec(&next.inner, req, results, out),
        )
    }

    fn command_and_report_results(
        &mut self,
        req: &Request,
        results: &CommandResults,
    ) -> (out: Result<Option<QueuedCommand>, MdmError>) {
        match self.validate_cert(req) {
            Ok(_) => self.inner.command_and_report_results(req, results),
            Err(e) => Err(e),
        }
    }
}

/// Pinning: whatever the inner handler is, `Authenticate` with an identity
/// and a certificate leaves that certificate's hash bound to the enrollment,
/// unless the store failed; and a bound certificate is admitted.
pub proof fn lemma_authenticate_binds<S: CertAuthStore, I: Checkin>(
    before: CertAuthService<S, I>,
    after: CertAuthService<S, I>,
    req: &Request,
    msg: &Authenticate,
    out: Result<(), MdmError>,
)
    requires
        before.authenticate_spec(&after, req, msg, out),
        presented(req) is Some,
        S::infallible() || !(out matches Err(MdmError::Storage(_))),
    ensures
        presented(req) matches Some((id, h)) && after.store.state().has_cert_auth(id, h),
        admitted(after.store.state(), req),
{
}

/// A request that is refused changes nothing, and the error says why: 400
/// for an unresolved identity, 401 for a missing or unknown certificate.
pub proof fn lemma_refusal<S: CertAuthStore, I: Checkin>(
    before: CertAuthService<S, I>,
    after: CertAuthService<S, I>,
    req: &Request,
    msg: &CheckOut,
    out: Result<(), MdmError>,
)
    requires
        before.checkout_spec(&after, req, msg, out),
        S::infallible(),
        !admitted(before.store.state(), req),
    ensures
        out is Err,
        after.inner == before.inner,
        after.store.state() == before.store.state(),
        out == Err::<(), MdmError>(
            if req.enroll_id is None {
                MdmError::UnresolvedIdentity
            } else {
                MdmError::Unauthorized
            },
        ),
{
}

} // verus!
