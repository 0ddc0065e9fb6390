//! Certificate utilities: the hash that pins a certificate to an enrollment,
//! the formats in which a reverse proxy hands a client certificate on, and
//! the APNs topic of a push certificate.

use vstd::prelude::*;
use vstd::string::*;
use base64::Engine;
use x509_parser::prelude::FromDer;
use crate::error::MdmError;
use crate::text::{
    chars_of, is_prefix, opt_bytes_view, opt_str_view, slice_chars, starts_with, str_eq, string_of,
    trim_chars, trimmed,
};

verus! {

/// The SHA-256 digest of a byte string, as `ring::digest::digest` computes it
/// with the algorithm `SHA256`.
pub uninterp spec fn sha256(data: Seq<u8>) -> Seq<u8>;

/// The length from which `ring` refuses to hash an input: its length in bits
/// must fit in 64 bits.
pub const HASH_INPUT_LIMIT: u64 = 0x2000_0000_0000_0000;

/// Hashes `data` with SHA-256 through `ring::digest::digest`. The digest of
/// that algorithm is 32 bytes long and depends on the input alone. Inputs of
/// 2^61 bytes or more, on which `ring` panics, are left out.
#[verifier::external_body]
fn sha256_digest(data: &[u8]) -> (h: [u8; 32])
    requires
        data@.len() < HASH_INPUT_LIMIT,
    ensures
        h@ == sha256(data@),
{
    let d = ring::digest::digest(&ring::digest::SHA256, data);
    let mut h = [0u8; 32];
    h.copy_from_slice(d.as_ref());
    h
}

/// The hash that identifies a certificate: the SHA-256 digest of its DER
/// encoding.
pub fn cert_hash(cert_der: &[u8]) -> (h: [u8; 32])
    requires
        cert_der@.len() < HASH_INPUT_LIMIT,
    ensures
        h@ == sha256(cert_der@),
{
    sha256_digest(cert_der)
}

/// The hash of a certificate, or `None` for one too long to be hashed.
pub fn checked_cert_hash(cert_der: &[u8]) -> (h: Option<[u8; 32]>)
    ensures
        match h {
            Some(h) => cert_der@.len() < HASH_INPUT_LIMIT && h@ == sha256(cert_der@),
            None => cert_der@.len() >= HASH_INPUT_LIMIT,
        },
{
    if (cert_der.len() as u64) < HASH_INPUT_LIMIT {
        Some(cert_hash(cert_der))
    } else {
        None
    }
}

/// What `base64::engine::general_purpose::STANDARD.decode` makes of a
/// string: the decoded bytes, or `None` where it reports an error.
pub uninterp spec fn base64_standard_decode(s: Seq<char>) -> Option<Seq<u8>>;

/// Decodes standard base64 (with padding) through the `base64` crate's
/// `STANDARD` engine.
#[verifier::external_body]
pub(crate) fn base64_decode(s: &str) -> (r: Option<Vec<u8>>)
    ensures
        opt_bytes_view(r) == base64_standard_decode(s@),
{
    base64::engine::general_purpose::STANDARD.decode(s).ok()
}

/// What `urlencoding::decode` makes of a string: the percent-decoded text,
/// or `None` where the decoded bytes are not UTF-8.
pub uninterp spec fn url_decoded(s: Seq<char>) -> Option<Seq<char>>;

/// Percent-decodes a string through `urlencoding::decode`.
#[verifier::external_body]
fn url_decode(s: &str) -> (r: Option<String>)
    ensures
        opt_str_view(r) == url_decoded(s@),
{
    match urlencoding::decode(s) {
        Ok(c) => Some(c.into_owned()),
        Err(_) => None,
    }
}

/// What `pem::parse` makes of a string: the tag and the binary contents of
/// the first PEM block, or `None` where it reports an error.
pub uninterp spec fn pem_parsed(s: Seq<char>) -> Option<(Seq<char>, Seq<u8>)>;

/// The view of an optional PEM block.
pub open spec fn opt_pem_view(o: Option<(String, Vec<u8>)>) -> Option<(Seq<char>, Seq<u8>)> {
    match o {
        Some(p) => Some((p.0@, p.1@)),
        None => None,
    }
}

/// Parses one PEM block through `pem::parse`, and hands on its `tag` and its
/// contents.
#[verifier::external_body]
fn pem_parse(s: &str) -> (r: Option<(String, Vec<u8>)>)
    ensures
        opt_pem_view(r) == pem_parsed(s@),
{
    match pem::parse(s) {
        Ok(p) => Some((p.tag().to_string(), p.into_contents())),
        Err(_) => None,
    }
}

/// The values of a certificate's subject attributes, in the order of the
/// name, as `x509_parser::certificate::X509Certificate::from_der` parses
/// them: for each attribute its value as `attr_value().as_str()` gives it,
/// or `None` where that reports an error. `None` for the whole where the bytes do not
/// parse as a certificate.
pub uninterp spec fn x509_subject_values(der: Seq<u8>) -> Option<Seq<Option<Seq<char>>>>;

/// The views of a list of optional strings.
pub open spec fn opt_views(v: Seq<Option<String>>) -> Seq<Option<Seq<char>>> {
    v.map_values(|o: Option<String>| opt_str_view(o))
}

/// The view of an optional list of subject values.
pub open spec fn opt_values_view(o: Option<Vec<Option<String>>>) -> Option<Seq<Option<Seq<char>>>> {
    match o {
        Some(v) => Some(opt_views(v@)),
        None => None,
    }
}

/// Parses a DER certificate with `X509Certificate::from_der` and lists the
/// values of its subject's attributes in the order of `X509Name::iter` and
/// `RelativeDistinguishedName::iter`, each read with `attr_value().as_str()`.
#[verifier::external_body]
fn subject_values(der: &[u8]) -> (r: Option<Vec<Option<String>>>)
    ensures
        opt_values_view(r) == x509_subject_values(der@),
{
    match x509_parser::certificate::X509Certificate::from_der(der) {
        Ok((_, cert)) => Some(
            cert.subject().iter().flat_map(|rdn| rdn.iter()).map(
                |attr| attr.attr_value().as_str().ok().map(|s| s.to_string()),
            ).collect(),
        ),
        Err(_) => None,
    }
}

/// The prefix that marks an APNs topic among the subject's values.
pub open spec fn topic_prefix() -> Seq<char> {
    "com.apple.mgmt."@
}

/// Whether a subject value is an APNs topic.
pub open spec fn is_topic(v: Option<Seq<char>>) -> bool {
    v matches Some(s) && is_prefix(topic_prefix(), s)
}

/// The first APNs topic among a subject's values.
pub open spec fn first_topic(values: Seq<Option<Seq<char>>>) -> Option<Seq<char>>
    decreases values.len(),
{
    if values.len() == 0 {
        None
    } else if is_topic(values[0]) {
        values[0]
    } else {
        first_topic(values.drop_first())
    }
}

/// The first of the values that begins with `com.apple.mgmt.`.
pub fn topic_among(values: &Vec<Option<String>>) -> (r: Option<String>)
    ensures
        opt_str_view(r) == first_topic(opt_views(values@)),
{
    let ghost all = opt_views(values@);
    let mut i: usize = 0;
    assert(all.skip(0) == all);
    while i < values.len()
        invariant
            i <= values@.len(),
            all == opt_views(values@),
            first_topic(all) == first_topic(all.skip(i as int)),
        decreases values@.len() - i,
    {
        assert(all.skip(i as int)[0] == all[i as int]);
        assert(all.skip(i as int).drop_first() == all.skip(i + 1));
        match &values[i] {
            Some(s) => {
                if starts_with(s.as_str(), "com.apple.mgmt.") {
                    return Some(s.clone());
                }
            },
            None => {},
        }
        i += 1;
    }
    None
}

/// The topic of a push certificate, from its DER encoding.
pub open spec fn topic_of(cert_der: Seq<u8>) -> Result<Seq<char>, MdmError> {
    match x509_subject_values(cert_der) {
        Some(values) => match first_topic(values) {
            Some(t) => Ok(t),
            None => Err(MdmError::Parse),
        },
        None => Err(MdmError::Parse),
    }
}

/// The view of a result that holds a string.
pub open spec fn str_result_view(r: Result<String, MdmError>) -> Result<Seq<char>, MdmError> {
    match r {
        Ok(s) => Ok(s@),
        Err(e) => Err(e),
    }
}

/// The view of a result that holds bytes.
pub open spec fn bytes_result_view(r: Result<Vec<u8>, MdmError>) -> Result<Seq<u8>, MdmError> {
    match r {
        Ok(b) => Ok(b@),
        Err(e) => Err(e),
    }
}

/// Extract the APNs topic from a push certificate.
///
/// The topic is the first subject attribute value with the prefix
/// `com.apple.mgmt.`; a certificate that does not parse, or has no such
/// value, is a parse error.
pub fn extract_topic_from_cert(cert_der: &[u8]) -> (r: Result<String, MdmError>)
    ensures
        str_result_view(r) == topic_of(cert_der@),
{
    match subject_values(cert_der) {
        Some(values) => match topic_among(&values) {
            Some(t) => Ok(t),
            None => Err(MdmError::Parse),
        },
        None => Err(MdmError::Parse),
    }
}

/// The DER bytes of a PEM block, which must be tagged `CERTIFICATE`.
pub open spec fn certificate_of(block: Option<(Seq<char>, Seq<u8>)>) -> Result<Seq<u8>, MdmError> {
    match block {
        Some((tag, contents)) => if tag == "CERTIFICATE"@ {
            Ok(contents)
        } else {
            Err(MdmError::Parse)
        },
        None => Err(MdmError::Parse),
    }
}

/// The certificate in a parsed PEM block: its contents where the tag is
/// `CERTIFICATE`, a parse error otherwise.
pub fn certificate_in(block: Option<(String, Vec<u8>)>) -> (r: Result<Vec<u8>, MdmError>)
    ensures
        bytes_result_view(r) == certificate_of(opt_pem_view(block)),
{
    match block {
        Some((tag, contents)) => {
            if str_eq(tag.as_str(), "CERTIFICATE") {
                Ok(contents)
            } else {
                Err(MdmError::Parse)
            }
        },
        None => Err(MdmError::Parse),
    }
}

/// Parse a certificate from PEM format.
pub fn parse_pem_cert(pem_str: &str) -> (r: Result<Vec<u8>, MdmError>)
    ensures
        bytes_result_view(r) == certificate_of(pem_parsed(pem_str@)),
{
    certificate_in(pem_parse(pem_str))
}

/// The base64 text of an RFC 9440 header value: what stands between the
/// colon that begins the trimmed value and the colon that ends it.
pub open spec fn rfc9440_payload(header: Seq<char>) -> Option<Seq<char>> {
    let h = trimmed(header);
    if h.len() >= 2 && h[0] == ':' && h.last() == ':' {
        Some(h.subrange(1, h.len() - 1))
    } else {
        None
    }
}

/// The certificate that an RFC 9440 header value carries.
pub open spec fn rfc9440_cert(header: Seq<char>) -> Result<Seq<u8>, MdmError> {
    match rfc9440_payload(header) {
        Some(b64) => match base64_standard_decode(b64) {
            Some(der) => Ok(der),
            None => Err(MdmError::Parse),
        },
        None => Err(MdmError::Parse),
    }
}

/// The base64 text between the colons of an RFC 9440 header value.
pub fn rfc9440_base64(header: &str) -> (r: Option<String>)
    ensures
        opt_str_view(r) == rfc9440_payload(header@),
{
    let v = chars_of(header);
    let h = trim_chars(&v);
    let n = h.len();
    if n >= 2 && h[0] == ':' && h[n - 1] == ':' {
        let inner = slice_chars(&h, 1, n - 1);
        Some(string_of(&inner))
    } else {
        None
    }
}

/// The bytes that a decoder produced, or a parse error where it failed.
pub fn decoded_or_parse_error(decoded: Option<Vec<u8>>) -> (r: Result<Vec<u8>, MdmError>)
    ensures
        bytes_result_view(r) == (match opt_bytes_view(decoded) {
            Some(b) => Ok(b),
            None => Err(MdmError::Parse),
        }),
{
    match decoded {
        Some(b) => Ok(b),
        None => Err(MdmError::Parse),
    }
}

/// Extract certificate from RFC 9440 header format (colon-delimited base64 DER).
///
/// Format: `:base64EncodedDERCert:`
pub fn extract_rfc9440_cert(header: &str) -> (r: Result<Vec<u8>, MdmError>)
    ensures
        bytes_result_view(r) == rfc9440_cert(header@),
{
    match rfc9440_base64(header) {
        Some(b64) => decoded_or_parse_error(base64_decode(b64.as_str())),
        None => Err(MdmError::Parse),
    }
}

/// The certificate that a URL-escaped PEM header value carries.
pub open spec fn pem_header_cert(header: Seq<char>) -> Result<Seq<u8>, MdmError> {
    match url_decoded(header) {
        Some(pem_str) => certificate_of(pem_parsed(pem_str)),
        None => Err(MdmError::Parse),
    }
}

/// Extract certificate from URL-escaped PEM header.
pub fn extract_pem_header(header: &str) -> (r: Result<Vec<u8>, MdmError>)
    ensures
        bytes_result_view(r) == pem_header_cert(header@),
{
    match url_decode(header) {
        Some(pem_str) => parse_pem_cert(pem_str.as_str()),
        None => Err(MdmError::Parse),
    }
}

} // verus!
