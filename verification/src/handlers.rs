//! The request pipeline of the device-facing endpoints: find the client
//! certificate, resolve the identity, build the request context, drive the
//! service, and say what goes back.

use vstd::prelude::*;
use vstd::string::*;
use crate::cert::{
    bytes_result_view, extract_pem_header, extract_rfc9440_cert, pem_header_cert, rfc9440_cert,
};
use crate::checkin::{BootstrapTokenResponse, CheckinMessage, GetTokenResponse};
use crate::command::{CommandResults, QueuedCommand};
use crate::enrollment::opt_id_view;
use crate::error::{spec_http_status, MdmError};
use crate::request::{Request, RequestView};
use crate::service::{Checkin, CommandAndReportResults};
use crate::text::{clone_bytes, opt_bytes_view, opt_str_view};

verus! {

/// What a request brings that can carry the client certificate.
pub struct CertSources {
    /// The verified peer certificate of the TLS session (DER), where the
    /// listener terminates mutual TLS itself.
    pub peer_certificate: Option<Vec<u8>>,
    /// The `Mdm-Signature` header.
    pub mdm_signature: Option<String>,
    /// The `X-Ssl-Client-Cert` header.
    pub x_ssl_client_cert: Option<String>,
    /// The `X-Client-Cert` header.
    pub x_client_cert: Option<String>,
    /// The `Ssl-Client-Cert` header.
    pub ssl_client_cert: Option<String>,
}

/// The certificate that a pass-through header value carries: RFC 9440 where
/// the value begins with a colon, URL-encoded PEM otherwise.
pub open spec fn header_cert(value: Seq<char>) -> Result<Seq<u8>, MdmError> {
    if value.len() > 0 && value[0] == ':' {
        rfc9440_cert(value)
    } else {
        pem_header_cert(value)
    }
}

/// The first of the pass-through headers that is present.
pub open spec fn passthrough_header(src: &CertSources) -> Option<Seq<char>> {
    if src.x_ssl_client_cert is Some {
        opt_str_view(src.x_ssl_client_cert)
    } else if src.x_client_cert is Some {
        opt_str_view(src.x_client_cert)
    } else {
        opt_str_view(src.ssl_client_cert)
    }
}

/// The client certificate of a request. The peer certificate of the TLS
/// session comes first. A request with an `Mdm-Signature` header has no
/// certificate: the signature is not verified, so no signer is taken from
/// it, and the pass-through headers are not read. Otherwise the first
/// pass-through header decides.
pub open spec fn client_certificate(src: &CertSources) -> Result<Option<Seq<u8>>, MdmError> {
    if src.peer_certificate is Some {
        Ok(opt_bytes_view(src.peer_certificate))
    } else if src.mdm_signature is Some {
        Ok(None)
    } else {
        match passthrough_header(src) {
            Some(value) => match header_cert(value) {
                Ok(der) => Ok(Some(der)),
                Err(e) => Err(e),
            },
            None => Ok(None),
        }
    }
}

/// The view of an extracted certificate.
pub open spec fn opt_cert_result_view(r: Result<Option<Vec<u8>>, MdmError>) -> Result<Option<Seq<u8>>, MdmError> {
    match r {
        Ok(c) => Ok(opt_bytes_view(c)),
        Err(e) => Err(e),
    }
}

/// Reads the certificate from one pass-through header value.
pub fn certificate_from_header(value: &str) -> (r: Result<Vec<u8>, MdmError>)
    ensures
        bytes_result_view(r) == header_cert(value@),
{
    if !value.is_empty() && value.get_char(0) == ':' {
        extract_rfc9440_cert(value)
    } else {
        extract_pem_header(value)
    }
}

/// Extract certificate from the request.
pub fn extract_certificate(src: &CertSources) -> (r: Result<Option<Vec<u8>>, MdmError>)
    ensures
        opt_cert_result_view(r) == client_certificate(src),
{
    match &src.peer_certificate {
        Some(cert) => {
            return Ok(Some(clone_bytes(cert.as_slice())));
        },
        None => {},
    }
    if src.mdm_signature.is_some() {
        return Ok(None);
    }
    let value = match &src.x_ssl_client_cert {
        Some(v) => v,
        None => match &src.x_client_cert {
            Some(v) => v,
            None => match &src.ssl_client_cert {
                Some(v) => v,
                None => {
                    return Ok(None);
                },
            },
        },
    };
    match certificate_from_header(value.as_str()) {
        Ok(der) => Ok(Some(der)),
        Err(e) => Err(e),
    }
}

/// What a check-in is answered with.
#[derive(Debug, Clone)]
pub enum CheckinReply {
    /// Nothing: an empty body.
    Empty,
    /// The bootstrap token of the enrollment.
    BootstrapToken(BootstrapTokenResponse),
    /// The token of a service.
    Token(GetTokenResponse),
    /// A body that the service made itself.
    Raw(Vec<u8>),
}

/// The reply for an operation that answers with nothing.
pub open spec fn reply_of_unit(
    out: Result<(), MdmError>,
    r: Result<CheckinReply, MdmError>,
) -> bool {
    match out {
        Ok(_) => r matches Ok(CheckinReply::Empty),
        Err(e) => r == Err::<CheckinReply, MdmError>(e),
    }
}

/// The reply for an operation that may answer with a body of its own.
pub open spec fn reply_of_raw(
    out: Result<Option<Vec<u8>>, MdmError>,
    r: Result<CheckinReply, MdmError>,
) -> bool {
    match out {
        Ok(Some(body)) => r matches Ok(CheckinReply::Raw(b)) && b@ == body@,
        Ok(None) => r matches Ok(CheckinReply::Empty),
        Err(e) => r == Err::<CheckinReply, MdmError>(e),
    }
}

/// The service handled `msg` under the request context `req`, going from
/// `before` to `after`, and `r` is what it answered.
pub open spec fn dispatched<S: Checkin>(
    before: &S,
    after: &S,
    req: &Request,
    msg: &CheckinMessage,
    r: Result<CheckinReply, MdmError>,
) -> bool {
    match msg {
        CheckinMessage::Authenticate(m) => exists|out: Result<(), MdmError>|
            #[trigger] before.authenticate_spec(after, req, m, out) && reply_of_unit(out, r),
        CheckinMessage::TokenUpdate(m) => exists|out: Result<(), MdmError>|
            #[trigger] before.token_update_spec(after, req, m, out) && reply_of_unit(out, r),
        CheckinMessage::CheckOut(m) => exists|out: Result<(), MdmError>|
            #[trigger] before.checkout_spec(after, req, m, out) && reply_of_unit(out, r),
        CheckinMessage::UserAuthenticate(m) => exists|out: Result<Option<Vec<u8>>, MdmError>|
            #[trigger] before.user_authenticate_spec(after, req, m, out) && reply_of_raw(out, r),
        CheckinMessage::SetBootstrapToken(m) => exists|out: Result<(), MdmError>|
            #[trigger] before.set_bootstrap_token_spec(after, req, m, out) && reply_of_unit(out, r),
        CheckinMessage::GetBootstrapToken(m) => exists|
            out: Result<Option<BootstrapTokenResponse>, MdmError>,
        |
            #[trigger] before.get_bootstrap_token_spec(after, req, m, out) && (match out {
                Ok(Some(resp)) => r == Ok::<CheckinReply, MdmError>(CheckinReply::BootstrapToken(resp)),
                Ok(None) => r matches Ok(CheckinReply::Empty),
                Err(e) => r == Err::<CheckinReply, MdmError>(e),
            }),
        CheckinMessage::DeclarativeManagement(m) => exists|out: Result<Option<Vec<u8>>, MdmError>|
            #[trigger] before.declarative_management_spec(after, req, m, out) && reply_of_raw(
                out,
                r,
            ),
        CheckinMessage::GetToken(m) => exists|out: Result<Option<GetTokenResponse>, MdmError>|
            #[trigger] before.get_token_spec(after, req, m, out) && (match out {
                Ok(Some(resp)) => r == Ok::<CheckinReply, MdmError>(CheckinReply::Token(resp)),
                Ok(None) => r matches Ok(CheckinReply::Empty),
                Err(e) => r == Err::<CheckinReply, MdmError>(e),
            }),
    }
}

/// Builds the request context from what the transport found.
pub fn build_request(
    cert: Option<Vec<u8>>,
    enroll_id: Option<crate::enrollment::EnrollId>,
) -> (req: Request)
    ensures
        req@ == (RequestView {
            enroll_id: opt_id_view(enroll_id),
            certificate: opt_bytes_view(cert),
            params: Map::empty(),
        }),
{
    let mut req = Request::new();
    match cert {
        Some(c) => {
            req = req.with_certificate(c);
        },
        None => {},
    }
    match enroll_id {
        Some(id) => {
            req = req.with_enroll_id(id);
        },
        None => {},
    }
    req
}

/// Hands a check-in message to the operation of the service that is for it.
pub fn dispatch_checkin<S: Checkin>(
    service: &mut S,
    req: &Request,
    msg: &CheckinMessage,
) -> (r: Result<CheckinReply, MdmError>)
    ensures
        dispatched(old(service), final(service), req, msg, r),
{
    match msg {
        CheckinMessage::Authenticate(m) => match service.authenticate(req, m) {
            Ok(_) => Ok(CheckinReply::Empty),
            Err(e) => Err(e),
        },
        CheckinMessage::TokenUpdate(m) => match service.token_update(req, m) {
            Ok(_) => Ok(CheckinReply::Empty),
            Err(e) => Err(e),
        },
        CheckinMessage::CheckOut(m) => match service.checkout(req, m) {
            Ok(_) => Ok(CheckinReply::Empty),
            Err(e) => Err(e),
        },
        CheckinMessage::UserAuthenticate(m) => match service.user_authenticate(req, m) {
            Ok(Some(body)) => Ok(CheckinReply::Raw(body)),
            Ok(None) => Ok(CheckinReply::Empty),
            Err(e) => Err(e),
        },
        CheckinMessage::SetBootstrapToken(m) => match service.set_bootstrap_token(req, m) {
            Ok(_) => Ok(CheckinReply::Empty),
            Err(e) => Err(e),
        },
        CheckinMessage::GetBootstrapToken(m) => match service.get_bootstrap_token(req, m) {
            Ok(Some(resp)) => Ok(CheckinReply::BootstrapToken(resp)),
            Ok(None) => Ok(CheckinReply::Empty),
            Err(e) => Err(e),
        },
        CheckinMessage::DeclarativeManagement(m) => match service.declarative_management(req, m) {
            Ok(Some(body)) => Ok(CheckinReply::Raw(body)),
            Ok(None) => Ok(CheckinReply::Empty),
            Err(e) => Err(e),
        },
        CheckinMessage::GetToken(m) => match service.get_token(req, m) {
            Ok(Some(resp)) => Ok(CheckinReply::Token(resp)),
            Ok(None) => Ok(CheckinReply::Empty),
            Err(e) => Err(e),
        },
    }
}

/// The request context of a message: the identity its fields resolve to,
/// the client certificate, and no parameters.
pub open spec fn is_context(
    req: &Request,
    cert: Option<Seq<u8>>,
    enrollment: crate::enrollment::Enrollment,
) -> bool {
    req@ == (RequestView {
        enroll_id: enrollment@.resolve(),
        certificate: cert,
        params: Map::empty(),
    })
}

/// Handle one check-in: a certificate that cannot be read is a parse error
/// and the service is not touched; otherwise the service handles the message
/// under the context of its identity and certificate.
pub fn handle_checkin_inner<S: Checkin>(
    service: &mut S,
    src: &CertSources,
    msg: &CheckinMessage,
) -> (r: Result<CheckinReply, MdmError>)
    ensures
        match client_certificate(src) {
            Err(e) => r == Err::<CheckinReply, MdmError>(e) && *final(service) == *old(service),
            Ok(cert) => exists|req: Request|
                is_context(&req, cert, msg.spec_enrollment()) && #[trigger] dispatched(
                    old(service),
                    final(service),
                    &req,
                    msg,
                    r,
                ),
        },
{
    let cert = match extract_certificate(src) {
        Ok(c) => c,
        Err(e) => {
            return Err(e);
        },
    };
    let req = build_request(cert, msg.enrollment().resolve());
    let r = dispatch_checkin(service, &req, msg);
    assert(is_context(&req, opt_bytes_view(cert), msg.spec_enrollment()));
    r
}

/// Handle one command report: as a check-in, with the next command as the
/// answer.
pub fn handle_command_inner<S: CommandAndReportResults>(
    service: &mut S,
    src: &CertSources,
    results: &CommandResults,
) -> (r: Result<Option<QueuedCommand>, MdmError>)
    ensures
        match client_certificate(src) {
            Err(e) => r == Err::<Option<QueuedCommand>, MdmError>(e) && *final(service) == *old(
                service,
            ),
            Ok(cert) => exists|req: Request|
                is_context(&req, cert, results.enrollment) && #[trigger] old(
                    service,
                ).command_and_report_results_spec(final(service), &req, results, r),
        },
{
    let cert = match extract_certificate(src) {
        Ok(c) => c,
        Err(e) => {
            return Err(e);
        },
    };
    let req = build_request(cert, results.enrollment.resolve());
    let r = service.command_and_report_results(&req, results);
    assert(is_context(&req, opt_bytes_view(cert), results.enrollment));
    r
}

/// The status and body of the HTTP response: 200 with the body, or the
/// status of the error with an empty body.
pub fn respond(outcome: Result<Vec<u8>, MdmError>) -> (r: (u16, Vec<u8>))
    ensures
        match outcome {
            Ok(body) => r.0 == 200 && r.1@ == body@,
            Err(e) => r.0 == spec_http_status(e) && r.1@.len() == 0,
        },
{
    match outcome {
        Ok(body) => (200, body),
        Err(e) => (e.http_status(), Vec::new()),
    }
}

} // verus!
