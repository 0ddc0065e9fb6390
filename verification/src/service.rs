//! The two handler contracts of the service layer. Each operation comes with
//! a relation that says what the handler may do: how the handler after the
//! call relates to the handler before it, for the request, the message and
//! the outcome. Wrapping handlers state their own relation over that of the
//! handler they wrap.

use vstd::prelude::*;
use crate::checkin::{
    Authenticate, BootstrapTokenResponse, CheckOut, DeclarativeManagement, GetBootstrapToken,
    GetToken, GetTokenResponse, SetBootstrapToken, TokenUpdate, UserAuthenticate,
};
use crate::command::{CommandResults, QueuedCommand};
use crate::error::MdmError;
use crate::request::Request;

verus! {

/// Check-in service trait.
pub trait Checkin {
    /// What handling `Authenticate` may do.
    spec fn authenticate_spec(
        &self,
        next: &Self,
        req: &Request,
        msg: &Authenticate,
        out: Result<(), MdmError>,
    ) -> bool;

    /// What handling `TokenUpdate` may do.
    spec fn token_update_spec(
        &self,
        next: &Self,
        req: &Request,
        msg: &TokenUpdate,
        out: Result<(), MdmError>,
    ) -> bool;

    /// What handling `CheckOut` may do.
    spec fn checkout_spec(
        &self,
        next: &Self,
        req: &Request,
        msg: &CheckOut,
        out: Result<(), MdmError>,
    ) -> bool;

    /// What handling `UserAuthenticate` may do.
    spec fn user_authenticate_spec(
        &self,
        next: &Self,
        req: &Request,
        msg: &UserAuthenticate,
        out: Result<Option<Vec<u8>>, MdmError>,
    ) -> bool;

    /// What handling `SetBootstrapToken` may do.
    spec fn set_bootstrap_token_spec(
        &self,
        next: &Self,
        req: &Request,
        msg: &SetBootstrapToken,
        out: Result<(), MdmError>,
    ) -> bool;

    /// What handling `GetBootstrapToken` may do.
    spec fn get_bootstrap_token_spec(
        &self,
        next: &Self,
        req: &Request,
        msg: &GetBootstrapToken,
        out: Result<Option<BootstrapTokenResponse>, MdmError>,
    ) -> bool;

    /// What handling `DeclarativeManagement` may do.
    spec fn declarative_management_spec(
        &self,
        next: &Self,
        req: &Request,
        msg: &DeclarativeManagement,
        out: Result<Option<Vec<u8>>, MdmError>,
    ) -> bool;

    /// What handling `GetToken` may do.
    spec fn get_token_spec(
        &self,
        next: &Self,
        req: &Request,
        msg: &GetToken,
        out: Result<Option<GetTokenResponse>, MdmError>,
    ) -> bool;

    /// Handle Authenticate message.
    fn authenticate(&mut self, req: &Request, msg: &Authenticate) -> (out: Result<(), MdmError>)
        ensures
            old(self).authenticate_spec(final(self), req, msg, out),
    ;

    /// Handle TokenUpdate message.
    fn token_update(&mut self, req: &Request, msg: &TokenUpdate) -> (out: Result<(), MdmError>)
        ensures
            old(self).token_update_spec(final(self), req, msg, out),
    ;

    /// Handle CheckOut message.
    fn checkout(&mut self, req: &Request, msg: &CheckOut) -> (out: Result<(), MdmError>)
        ensures
            old(self).checkout_spec(final(self), req, msg, out),
    ;

    /// Handle UserAuthenticate message.
    fn user_authenticate(&mut self, req: &Request, msg: &UserAuthenticate) -> (out: Result<Option<Vec<u8>>, MdmError>)
        ensures
            old(self).user_authenticate_spec(final(self), req, msg, out),
    ;

    /// Handle SetBootstrapToken message.
    fn set_bootstrap_token(&mut self, req: &Request, msg: &SetBootstrapToken) -> (out: Result<(), MdmError>)
        ensures
            old(self).set_bootstrap_token_spec(final(self), req, msg, out),
    ;

    /// Handle GetBootstrapToken message.
    fn get_bootstrap_token(&mut self, req: &Request, msg: &GetBootstrapToken) -> (out: Result<Option<BootstrapTokenResponse>, MdmError>)
        ensures
            old(self).get_bootstrap_token_spec(final(self), req, msg, out),
    ;

    /// Handle DeclarativeManagement message.
    fn declarative_management(
        &mut self,
        req: &Request,
        msg: &DeclarativeManagement,
    ) -> (out: Result<Option<Vec<u8>>, MdmError>)
        ensures
            old(self).declarative_management_spec(final(self), req, msg, out),
    ;

    /// Handle GetToken message.
    fn get_token(&mut self, req: &Request, msg: &GetToken) -> (out: Result<Option<GetTokenResponse>, MdmError>)
        ensures
            old(self).get_token_spec(final(self), req, msg, out),
    ;
}

/// Command and report results service trait.
pub trait CommandAndReportResults {
    /// What handling a command report may do.
    spec fn command_and_report_results_spec(
        &self,
        next: &Self,
        req: &Request,
        results: &CommandResults,
        out: Result<Option<QueuedCommand>, MdmError>,
    ) -> bool;

    /// Handle command results and return next command.
    fn command_and_report_results(
        &mut self,
        req: &Request,
        results: &CommandResults,
    ) -> (out: Result<Option<QueuedCommand>, MdmError>)
        ensures
            old(self).command_and_report_results_spec(final(self), req, results, out),
    ;
}

/// Combined check-in and command service.
pub trait CheckinAndCommand: Checkin + CommandAndReportResults {
}

impl<T: Checkin + CommandAndReportResults> CheckinAndCommand for T {
}

} // verus!
