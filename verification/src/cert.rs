//! Certificates: the fields the TLS probes report, and the SPKI pin a
//! browser is told to trust.
//!
//! Parsing is `x509-parser`'s; hashing and encoding are `sha2`'s and
//! `base64`'s. Each read parses the DER anew and yields None exactly when
//! it does not parse as an X.509 certificate.

use vstd::prelude::*;
use base64::Engine;
use sha2::Digest;
use x509_parser::prelude::FromDer;
use x509_parser::prelude::GeneralName;
use x509_parser::prelude::X509Certificate;

verus! {

/// Whether `X509Certificate::from_der` accepts the bytes.
pub uninterp spec fn der_is_certificate(der: Seq<u8>) -> bool;

/// The subject name as `X509Name`'s `Display` renders it.
pub uninterp spec fn der_subject(der: Seq<u8>) -> Seq<char>;

/// The issuer name as `X509Name`'s `Display` renders it.
pub uninterp spec fn der_issuer(der: Seq<u8>) -> Seq<char>;

/// The end of the validity period, in seconds since the Unix epoch.
pub uninterp spec fn der_not_after(der: Seq<u8>) -> i64;

/// The raw DER bytes of the SubjectPublicKeyInfo.
pub uninterp spec fn der_spki(der: Seq<u8>) -> Seq<u8>;

/// The subject alternative names, in order (empty when the extension is
/// absent or invalid).
pub uninterp spec fn der_sans(der: Seq<u8>) -> Seq<SanName>;

/// The SHA-256 digest of the bytes.
pub uninterp spec fn sha256_of(data: Seq<u8>) -> Seq<u8>;

/// The standard base64 encoding (with padding) of the bytes.
pub uninterp spec fn base64_of(data: Seq<u8>) -> Seq<char>;

/// One subject alternative name.
#[derive(Debug, Clone, PartialEq, Eq)]
pub enum SanName {
    /// A DNS name.
    Dns(String),
    /// An IP address as encoded: 4 bytes for IPv4, 16 for IPv6.
    Ip(Vec<u8>),
    /// Any other kind of name.
    Other,
}

/// The subject of a certificate.
///
/// Parses with `X509Certificate::from_der` and renders `subject()` with
/// `to_string`: Some exactly when the bytes parse, holding the rendering
/// named `der_subject`.
#[verifier::external_body]
fn cert_subject(der: &[u8]) -> (r: Option<String>)
    ensures
        r is Some == der_is_certificate(der@),
        r matches Some(s) ==> s@ == der_subject(der@),
{
    match X509Certificate::from_der(der) {
        Ok((_, c)) => Some(c.subject().to_string()),
        Err(_) => None,
    }
}

/// The issuer of a certificate.
///
/// Parses with `X509Certificate::from_der` and renders `issuer()` with
/// `to_string`: Some exactly when the bytes parse, holding the rendering
/// named `der_issuer`.
#[verifier::external_body]
fn cert_issuer(der: &[u8]) -> (r: Option<String>)
    ensures
        r is Some == der_is_certificate(der@),
        r matches Some(s) ==> s@ == der_issuer(der@),
{
    match X509Certificate::from_der(der) {
        Ok((_, c)) => Some(c.issuer().to_string()),
        Err(_) => None,
    }
}

/// The expiry of a certificate.
///
/// Parses with `X509Certificate::from_der` and reads
/// `validity().not_after.timestamp()`: Some exactly when the bytes parse,
/// holding the timestamp named `der_not_after`.
#[verifier::external_body]
fn cert_not_after(der: &[u8]) -> (r: Option<i64>)
    ensures
        r is Some == der_is_certificate(der@),
        r matches Some(t) ==> t == der_not_after(der@),
{
    match X509Certificate::from_der(der) {
        Ok((_, c)) => Some(c.validity().not_after.timestamp()),
        Err(_) => None,
    }
}

/// The SubjectPublicKeyInfo of a certificate.
///
/// Parses with `X509Certificate::from_der` and copies `public_key().raw`:
/// Some exactly when the bytes parse, holding the bytes named `der_spki`.
#[verifier::external_body]
fn cert_spki(der: &[u8]) -> (r: Option<Vec<u8>>)
    ensures
        r is Some == der_is_certificate(der@),
        r matches Some(k) ==> k@ == der_spki(der@),
{
    match X509Certificate::from_der(der) {
        Ok((_, c)) => Some(c.public_key().raw.to_vec()),
        Err(_) => None,
    }
}

/// The subject alternative names of a certificate.
///
/// Parses with `X509Certificate::from_der` and maps each entry of
/// `subject_alternative_name()` to a `SanName`, one variant for one
/// (an absent or invalid extension gives none): Some exactly when the bytes
/// parse, holding the names named `der_sans`.
#[verifier::external_body]
fn cert_sans(der: &[u8]) -> (r: Option<Vec<SanName>>)
    ensures
        r is Some == der_is_certificate(der@),
        r matches Some(v) ==> v@ == der_sans(der@),
{
    match X509Certificate::from_der(der) {
        Ok((_, c)) => Some(match c.subject_alternative_name() {
            Ok(Some(ext)) => ext.value.general_names.iter().map(|gn| match gn {
                GeneralName::DNSName(n) => SanName::Dns(n.to_string()),
                GeneralName::IPAddress(ip) => SanName::Ip(ip.to_vec()),
                _ => SanName::Other,
            }).collect(),
            _ => Vec::new(),
        }),
        Err(_) => None,
    }
}

/// SHA-256 of a byte string.
///
/// Calls `sha2::Sha256::digest`; the digest is named `sha256_of` and is 32
/// bytes long (the output size of SHA-256).
#[verifier::external_body]
fn sha256_digest(data: &[u8]) -> (r: Vec<u8>)
    ensures
        r@ == sha256_of(data@),
        r@.len() == 32,
{
    sha2::Sha256::digest(data).to_vec()
}

/// Standard base64 (with padding) of a byte string.
///
/// Calls `base64::engine::general_purpose::STANDARD.encode`; the text is
/// named `base64_of`. Nothing more is stated.
#[verifier::external_body]
fn base64_standard(data: &[u8]) -> (r: String)
    ensures
        r@ == base64_of(data@),
{
    base64::engine::general_purpose::STANDARD.encode(data)
}

/// The pin of a SubjectPublicKeyInfo: base64 of its SHA-256.
pub open spec fn spki_pin_spec(spki: Seq<u8>) -> Seq<char> {
    base64_of(sha256_of(spki))
}

/// The pin of raw SubjectPublicKeyInfo bytes (see `spki_pin_spec`).
pub fn spki_pin(spki_der: &[u8]) -> (pin: String)
    ensures
        pin@ == spki_pin_spec(spki_der@),
{
    let hash = sha256_digest(spki_der);
    base64_standard(hash.as_slice())
}

/// The SPKI pin of a certificate: base64 of the SHA-256 of its
/// SubjectPublicKeyInfo (the key, not the whole certificate), as a browser
/// takes it in its SPKI allow-list; None when the bytes are not a
/// certificate.
pub fn compute_spki_sha256_base64(cert_der: &[u8]) -> (r: Option<String>)
    ensures
        r is Some == der_is_certificate(cert_der@),
        r matches Some(pin) ==> pin@ == spki_pin_spec(der_spki(cert_der@)),
{
    match cert_spki(cert_der) {
        Some(spki) => Some(spki_pin(spki.as_slice())),
        None => None,
    }
}

/// Subject, issuer and expiry of a certificate.
#[derive(Debug, Clone)]
pub struct CertFields {
    pub subject: String,
    pub issuer: String,
    /// Seconds since the Unix epoch.
    pub not_after: i64,
}

/// The subject, issuer and expiry of a DER certificate; None when the bytes
/// are not a certificate.
pub fn parse_cert_fields(der: &[u8]) -> (r: Option<CertFields>)
    ensures
        r is Some == der_is_certificate(der@),
        r matches Some(f) ==> f.subject@ == der_subject(der@) && f.issuer@ == der_issuer(der@)
            && f.not_after == der_not_after(der@),
{
    let subject = cert_subject(der);
    let issuer = cert_issuer(der);
    let not_after = cert_not_after(der);
    match (subject, issuer, not_after) {
        (Some(subject), Some(issuer), Some(not_after)) => Some(CertFields { subject, issuer, not_after }),
        _ => None,
    }
}

/// The names of a certificate a report lists: DNS names and IP addresses of
/// 4 or 16 bytes, in order.
pub open spec fn reported_sans(sans: Seq<SanName>) -> Seq<SanName> {
    sans.filter(|n: SanName| is_reported_san(n))
}

pub open spec fn is_reported_san(n: SanName) -> bool {
    match n {
        SanName::Dns(_) => true,
        SanName::Ip(ip) => ip@.len() == 4 || ip@.len() == 16,
        SanName::Other => false,
    }
}

/// One certificate of a reported chain.
#[derive(Debug, Clone)]
pub struct CertEntry {
    pub subject: String,
    pub issuer: String,
    /// Seconds since the Unix epoch.
    pub not_after: i64,
    pub sans: Vec<SanName>,
}

/// A reported chain entry for a DER certificate: subject, issuer, expiry and
/// the DNS and IP subject alternative names; None when the bytes are not a
/// certificate.
pub fn parse_cert_entry(der: &[u8]) -> (r: Option<CertEntry>)
    ensures
        r is Some == der_is_certificate(der@),
        r matches Some(e) ==> e.subject@ == der_subject(der@) && e.issuer@ == der_issuer(der@)
            && e.not_after == der_not_after(der@) && e.sans@ == reported_sans(der_sans(der@)),
{
    let fields = match parse_cert_fields(der) {
        Some(f) => f,
        None => return None,
    };
    let mut rest = match cert_sans(der) {
        Some(v) => v,
        None => return None,
    };
    let ghost all = rest@;
    let mut sans: Vec<SanName> = Vec::new();
    while rest.len() > 0
        invariant
            rest@.len() <= all.len(),
            rest@ == all.skip(all.len() - rest@.len()),
            sans@ == reported_sans(all.take(all.len() - rest@.len())),
        decreases rest@.len(),
    {
        let ghost k = all.len() - rest@.len();
        proof {
            reveal_with_fuel(Seq::filter, 1);
            assert(all.take(k + 1).drop_last() =~= all.take(k));
            assert(all.take(k + 1).last() == rest@[0]);
        }
        let n = rest.remove(0);
        assert(rest@ =~= all.skip(k + 1));
        let keep = match &n {
            SanName::Dns(_) => true,
            SanName::Ip(ip) => ip.len() == 4 || ip.len() == 16,
            SanName::Other => false,
        };
        if keep {
            sans.push(n);
        }
    }
    assert(all.take(all.len() as int) =~= all);
    Some(CertEntry { subject: fields.subject, issuer: fields.issuer, not_after: fields.not_after, sans })
}

} // verus!
