//! The `Mdm-Signature` header.

use vstd::prelude::*;
use crate::cert::{base64_decode, base64_standard_decode, bytes_result_view, decoded_or_parse_error};
use crate::error::MdmError;

verus! {

/// Decode the Mdm-Signature header, a base64-encoded PKCS#7 detached
/// signature over the request body.
///
/// The signature is decoded and not verified: what comes back is the raw
/// signed-data structure, from which no signer may be trusted. A header that
/// is not base64 is a parse error.
pub fn verify_mdm_signature(signature_header: &str, body: &[u8]) -> (r: Result<Vec<u8>, MdmError>)
    ensures
        bytes_result_view(r) == (match base64_standard_decode(signature_header@) {
            Some(der) => Ok(der),
            None => Err(MdmError::Parse),
        }),
{
    decoded_or_parse_error(base64_decode(signature_header))
}

/// Signature verifier using a trusted CA.
pub struct SignatureVerifier {
    /// Trusted CA certificate (DER-encoded).
    ca_cert: Vec<u8>,
}

impl SignatureVerifier {
    /// The trusted CA certificate.
    pub closed spec fn spec_ca_cert(&self) -> Seq<u8> {
        self.ca_cert@
    }

    /// Create a new verifier with a trusted CA.
    pub fn new(ca_cert_der: Vec<u8>) -> (r: Self)
        ensures
            r.spec_ca_cert() == ca_cert_der@,
    {
        SignatureVerifier { ca_cert: ca_cert_der }
    }

    /// The trusted CA certificate.
    pub fn ca_cert(&self) -> (r: &Vec<u8>)
        ensures
            r@ == self.spec_ca_cert(),
    {
        &self.ca_cert
    }
}

} // verus!
