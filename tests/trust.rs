use seymour::trust::{
    digest_matches, evaluate, map_sig_to_webpki_err, verify_selfsigned_certificate,
    CertificateFingerprint, TrustCheck, TrustPolicy, Verdict,
};

fn sha256(b: &[u8]) -> [u8; 32] {
    let d = ring::digest::digest(&ring::digest::SHA256, b);
    let mut out = [0u8; 32];
    out.copy_from_slice(d.as_ref());
    out
}

fn pinned(digest: [u8; 32], not_after: i64) -> TrustPolicy {
    TrustPolicy::Pinned(CertificateFingerprint { digest, not_after })
}

#[test]
fn checks_by_policy() {
    let p = pinned([0; 32], 100);
    assert_eq!(p.check_for(1, 50), TrustCheck::PinnedDigest);
    assert_eq!(p.check_for(1, 100), TrustCheck::SelfSigned);
    assert_eq!(p.check_for(1, 150), TrustCheck::SelfSigned);
    assert_eq!(p.check_for(2, 50), TrustCheck::Chain);
    assert_eq!(TrustPolicy::Opportunistic.check_for(1, 0), TrustCheck::SelfSigned);
    assert_eq!(TrustPolicy::Opportunistic.check_for(3, 0), TrustCheck::Chain);
    assert_eq!(TrustPolicy::Chained.check_for(1, 0), TrustCheck::Chain);
}

#[test]
fn pinned_digest_before_expiry() {
    let cert = b"certificate bytes".to_vec();
    let good = pinned(sha256(&cert), 1000);
    assert!(matches!(evaluate(&good, &vec![cert.clone()], 10), Verdict::Accept));
    let bad = pinned(sha256(b"another"), 1000);
    assert!(matches!(evaluate(&bad, &vec![cert.clone()], 10), Verdict::Reject(_)));
    assert!(matches!(evaluate(&good, &vec![cert.clone(), cert.clone()], 10), Verdict::ValidateChain));
}

#[test]
fn expired_pin_falls_back_to_the_self_signed_check() {
    let cert = b"not der".to_vec();
    let p = pinned(sha256(&cert), 5);
    assert!(matches!(evaluate(&p, &vec![cert.clone()], 10), Verdict::Reject(x509_signature::Error::BadDER)));
    assert!(verify_selfsigned_certificate(&cert, 10).is_err());
    assert!(matches!(
        evaluate(&TrustPolicy::Opportunistic, &vec![cert.clone()], 10),
        Verdict::Reject(_)
    ));
    assert_eq!(verify_selfsigned_certificate(&[], 10), Err(x509_signature::Error::BadDER));
}

#[test]
fn digest_of_abc() {
    let pin: [u8; 32] = [
        0xba, 0x78, 0x16, 0xbf, 0x8f, 0x01, 0xcf, 0xea, 0x41, 0x41, 0x40, 0xde, 0x5d, 0xae, 0x22,
        0x23, 0xb0, 0x03, 0x61, 0xa3, 0x96, 0x17, 0x7a, 0x9c, 0xb4, 0x10, 0xff, 0x61, 0xf2, 0x00,
        0x15, 0xad,
    ];
    assert!(digest_matches(b"abc", &pin));
    assert!(!digest_matches(b"abd", &pin));
    let mut raw = [0u8; 32];
    raw[..3].copy_from_slice(b"abc");
    assert!(!digest_matches(&raw, &raw));
}

#[test]
fn signature_errors_map_to_certificate_errors() {
    assert_eq!(map_sig_to_webpki_err(x509_signature::Error::CertExpired), webpki::Error::CertExpired);
    assert_eq!(map_sig_to_webpki_err(x509_signature::Error::BadDER), webpki::Error::BadDER);
    assert_eq!(map_sig_to_webpki_err(x509_signature::Error::UnknownIssuer), webpki::Error::UnknownIssuer);
}
