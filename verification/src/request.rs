//! MDM request context.

use vstd::prelude::*;
use vstd::string::*;
use crate::enrollment::{opt_id_view, EnrollId, EnrollIdView};
use crate::error::MdmError;
use crate::table::Table;
use crate::text::opt_bytes_view;

verus! {

/// MDM request context.
///
/// Carries enrollment identification and certificate info through the service layer.
#[derive(Debug, Clone)]
pub struct Request {
    /// Resolved enrollment ID.
    pub enroll_id: Option<EnrollId>,
    /// Device certificate (DER-encoded).
    pub certificate: Option<Vec<u8>>,
    /// URL query parameters.
    pub params: Table<String>,
}

/// A request context over plain values.
pub struct RequestView {
    pub enroll_id: Option<EnrollIdView>,
    pub certificate: Option<Seq<u8>>,
    pub params: Map<Seq<char>, Seq<char>>,
}

impl View for Request {
    type V = RequestView;

    open spec fn view(&self) -> RequestView {
        RequestView {
            enroll_id: opt_id_view(self.enroll_id),
            certificate: opt_bytes_view(self.certificate),
            params: self.params@,
        }
    }
}

impl Request {
    /// Create a new empty request.
    pub fn new() -> (r: Self)
        ensures
            r@ == (RequestView { enroll_id: None, certificate: None, params: Map::empty() }),
    {
        Request { enroll_id: None, certificate: None, params: Table::new() }
    }

    /// Set the enrollment ID.
    pub fn with_enroll_id(self, id: EnrollId) -> (r: Self)
        ensures
            r@ == (RequestView { enroll_id: Some(id@), ..self@ }),
    {
        Request { enroll_id: Some(id), certificate: self.certificate, params: self.params }
    }

    /// Set the certificate.
    pub fn with_certificate(self, cert: Vec<u8>) -> (r: Self)
        ensures
            r@ == (RequestView { certificate: Some(cert@), ..self@ }),
    {
        Request { enroll_id: self.enroll_id, certificate: Some(cert), params: self.params }
    }

    /// Add a query parameter; a later value for a key replaces the earlier.
    pub fn with_param(self, key: &str, value: &str) -> (r: Self)
        ensures
            r@ == (RequestView { params: self@.params.insert(key@, value@), ..self@ }),
    {
        let mut params = self.params;
        params.insert(key.to_owned(), value.to_owned());
        Request { enroll_id: self.enroll_id, certificate: self.certificate, params }
    }

    /// Get the enrollment ID, or the error for a message whose identity did
    /// not resolve.
    pub fn require_enroll_id(&self) -> (r: Result<&EnrollId, MdmError>)
        ensures
            match r {
                Ok(id) => self.enroll_id == Some(*id),
                Err(e) => self.enroll_id is None && e == MdmError::UnresolvedIdentity,
            },
    {
        match &self.enroll_id {
            Some(id) => Ok(id),
            None => Err(MdmError::UnresolvedIdentity),
        }
    }
}

impl Default for Request {
    fn default() -> (r: Self)
        ensures
            r@ == (RequestView { enroll_id: None, certificate: None, params: Map::empty() }),
    {
        Request::new()
    }
}

} // verus!
