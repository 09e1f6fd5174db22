//! Which server certificates a fetch accepts: chain validation, a pinned
//! fingerprint, or a self-signed certificate on first sight.

use vstd::prelude::*;

verus! {

#[verifier::external_type_specification]
pub struct ExSigError(x509_signature::Error);

#[verifier::external_type_specification]
pub struct ExWebPkiError(webpki::Error);

/// Whether a DER certificate parses, is valid at `now` (seconds since the
/// Unix epoch) and is issued by itself.
pub uninterp spec fn self_signed_at_of(der: Seq<u8>, now: i64) -> bool;

/// Relies on `x509_signature::parse_certificate`, then
/// `X509Certificate::valid_at_timestamp` and
/// `X509Certificate::check_self_issued`: `Ok` exactly when all three succeed,
/// which depends on the bytes and the time alone.
#[verifier::external_body]
fn check_self_signed(der: &[u8], now: i64) -> (r: Result<(), x509_signature::Error>)
    ensures
        r is Ok <==> self_signed_at_of(der@, now),
{
    let cert = x509_signature::parse_certificate(der)?;
    cert.valid_at_timestamp(now)?;
    cert.check_self_issued()
}

/// The SHA-256 digest of a byte string.
pub uninterp spec fn sha256_of(b: Seq<u8>) -> Seq<u8>;

/// Relies on `ring::digest::digest` with `SHA256`: a digest of 32 bytes that
/// depends on the input alone.
#[verifier::external_body]
fn sha256(b: &[u8]) -> (r: Vec<u8>)
    ensures
        r@ == sha256_of(b@),
        r@.len() == 32,
{
    ring::digest::digest(&ring::digest::SHA256, b).as_ref().to_vec()
}

/// Relies on `ring::constant_time::verify_slices_are_equal`: `Ok` exactly
/// when the two slices are equal.
#[verifier::external_body]
fn slices_equal(a: &[u8], b: &[u8]) -> (r: bool)
    ensures
        r == (a@ == b@),
{
    ring::constant_time::verify_slices_are_equal(a, b).is_ok()
}

/// A certificate known in advance: the digest of its DER bytes, and the time
/// (seconds since the Unix epoch) after which the pin no longer holds.
pub struct CertificateFingerprint {
    pub digest: [u8; 32],
    pub not_after: i64,
}

/// How a fetch judges the certificates that a server presents.
pub enum TrustPolicy {
    /// A lone certificate is accepted when it is self-issued and valid now;
    /// a longer chain is validated against the root set.
    Opportunistic,
    /// A lone certificate is accepted while the pin holds when its digest is
    /// the pinned one, and once the pin has expired when it is self-issued and
    /// valid now; a longer chain is validated against the root set.
    Pinned(CertificateFingerprint),
    /// Every chain is validated against the root set.
    Chained,
}

/// The check that a presented chain is put to.
#[derive(PartialEq, Eq, Structural, Clone, Copy, Debug)]
pub enum TrustCheck {
    /// The digest of the lone certificate must be the pinned one.
    PinnedDigest,
    /// The lone certificate must be self-issued and valid at the time.
    SelfSigned,
    /// The chain must lead to a trusted root and name the host.
    Chain,
}

impl TrustPolicy {
    /// The check for a chain of `n` certificates at time `now`.
    pub open spec fn check_spec(self, n: nat, now: i64) -> TrustCheck {
        match self {
            TrustPolicy::Chained => TrustCheck::Chain,
            TrustPolicy::Opportunistic => if n == 1 {
                TrustCheck::SelfSigned
            } else {
                TrustCheck::Chain
            },
            TrustPolicy::Pinned(fp) => if n != 1 {
                TrustCheck::Chain
            } else if now < fp.not_after {
                TrustCheck::PinnedDigest
            } else {
                TrustCheck::SelfSigned
            },
        }
    }

    /// The check for a chain of `n` certificates at time `now`.
    pub fn check_for(&self, n: usize, now: i64) -> (r: TrustCheck)
        ensures
            r == self.check_spec(n as nat, now),
    {
        match self {
            TrustPolicy::Chained => TrustCheck::Chain,
            TrustPolicy::Opportunistic => if n == 1 {
                TrustCheck::SelfSigned
            } else {
                TrustCheck::Chain
            },
            TrustPolicy::Pinned(fp) => if n != 1 {
                TrustCheck::Chain
            } else if now < fp.not_after {
                TrustCheck::PinnedDigest
            } else {
                TrustCheck::SelfSigned
            },
        }
    }
}

/// Under a pinned fingerprint, a lone certificate presented before the pin
/// expires is judged by its digest alone; from the expiry on, the digest
/// plays no part and the certificate is put to the self-signed check; a chain
/// of any other length is validated against the root set.
pub proof fn lemma_pinned_fingerprint(fp: CertificateFingerprint, n: nat, now: i64)
    ensures
        n == 1 && now < fp.not_after ==> TrustPolicy::Pinned(fp).check_spec(n, now)
            == TrustCheck::PinnedDigest,
        n == 1 && now >= fp.not_after ==> TrustPolicy::Pinned(fp).check_spec(n, now)
            == TrustCheck::SelfSigned,
        n != 1 ==> TrustPolicy::Pinned(fp).check_spec(n, now) == TrustCheck::Chain,
{
}

/// The verdict on a presented chain.
pub enum Verdict {
    Accept,
    Reject(x509_signature::Error),
    /// The chain goes to validation against the root set, which the TLS
    /// layer performs.
    ValidateChain,
}

/// Checks that a certificate is well formed, valid at `now` and issued by
/// itself. Its subject is not checked against a host name: a self-signed
/// certificate binds no trusted identity.
pub fn verify_selfsigned_certificate(cert: &[u8], now: i64) -> (r: Result<
    (),
    x509_signature::Error,
>)
    ensures
        r is Ok <==> self_signed_at_of(cert@, now),
{
    check_self_signed(cert, now)
}

/// Whether the digest of `cert` is `pin`.
pub fn digest_matches(cert: &[u8], pin: &[u8; 32]) -> (r: bool)
    ensures
        r == (sha256_of(cert@) == pin@),
{
    let d = sha256(cert);
    slices_equal(d.as_slice(), pin.as_slice())
}

/// Judges the chain `certs` presented at time `now` under `policy`.
pub fn evaluate(policy: &TrustPolicy, certs: &Vec<Vec<u8>>, now: i64) -> (r: Verdict)
    ensures
        policy.check_spec(certs@.len() as nat, now) == TrustCheck::Chain <==> r
            is ValidateChain,
        policy.check_spec(certs@.len() as nat, now) == TrustCheck::PinnedDigest ==> match policy {
            TrustPolicy::Pinned(fp) => (r is Accept) == (sha256_of(certs@[0]@) == fp.digest@),
            _ => false,
        },
        policy.check_spec(certs@.len() as nat, now) == TrustCheck::SelfSigned ==> ((r is Accept)
            == self_signed_at_of(certs@[0]@, now) && !(r is ValidateChain)),
{
    match policy.check_for(certs.len(), now) {
        TrustCheck::Chain => Verdict::ValidateChain,
        TrustCheck::PinnedDigest => {
            match policy {
                TrustPolicy::Pinned(fp) => {
                    if digest_matches(certs[0].as_slice(), &fp.digest) {
                        Verdict::Accept
                    } else {
                        Verdict::Reject(x509_signature::Error::UnknownIssuer)
                    }
                },
                _ => Verdict::ValidateChain,
            }
        },
        TrustCheck::SelfSigned => {
            match verify_selfsigned_certificate(certs[0].as_slice(), now) {
                Ok(()) => Verdict::Accept,
                Err(e) => Verdict::Reject(e),
            }
        },
    }
}

/// The certificate error that `e` stands for among the TLS layer's errors;
/// one that has no counterpart there is an unknown issuer.
pub open spec fn webpki_error_of(e: x509_signature::Error) -> webpki::Error {
    match e {
        x509_signature::Error::UnsupportedCertVersion => webpki::Error::UnsupportedCertVersion,
        x509_signature::Error::UnsupportedSignatureAlgorithm => webpki::Error::UnsupportedSignatureAlgorithm,
        x509_signature::Error::UnsupportedSignatureAlgorithmForPublicKey => webpki::Error::UnsupportedSignatureAlgorithmForPublicKey,
        x509_signature::Error::InvalidSignatureForPublicKey => webpki::Error::InvalidSignatureForPublicKey,
        x509_signature::Error::SignatureAlgorithmMismatch => webpki::Error::SignatureAlgorithmMismatch,
        x509_signature::Error::BadDER => webpki::Error::BadDER,
        x509_signature::Error::BadDERTime => webpki::Error::BadDERTime,
        x509_signature::Error::CertNotValidYet => webpki::Error::CertNotValidYet,
        x509_signature::Error::CertExpired => webpki::Error::CertExpired,
        x509_signature::Error::InvalidCertValidity => webpki::Error::InvalidCertValidity,
        _ => webpki::Error::UnknownIssuer,
    }
}

/// The certificate error that `e` stands for among the TLS layer's errors.
pub fn map_sig_to_webpki_err(e: x509_signature::Error) -> (r: webpki::Error)
    ensures
        r == webpki_error_of(e),
{
    match e {
        x509_signature::Error::UnsupportedCertVersion => webpki::Error::UnsupportedCertVersion,
        x509_signature::Error::UnsupportedSignatureAlgorithm => webpki::Error::UnsupportedSignatureAlgorithm,
        x509_signature::Error::UnsupportedSignatureAlgorithmForPublicKey => webpki::Error::UnsupportedSignatureAlgorithmForPublicKey,
        x509_signature::Error::InvalidSignatureForPublicKey => webpki::Error::InvalidSignatureForPublicKey,
        x509_signature::Error::SignatureAlgorithmMismatch => webpki::Error::SignatureAlgorithmMismatch,
        x509_signature::Error::BadDER => webpki::Error::BadDER,
        x509_signature::Error::BadDERTime => webpki::Error::BadDERTime,
        x509_signature::Error::CertNotValidYet => webpki::Error::CertNotValidYet,
        x509_signature::Error::CertExpired => webpki::Error::CertExpired,
        x509_signature::Error::InvalidCertValidity => webpki::Error::InvalidCertValidity,
        _ => webpki::Error::UnknownIssuer,
    }
}

} // verus!
