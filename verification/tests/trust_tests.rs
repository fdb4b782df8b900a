use https_proxy::trust::NoCertificateVerification;
use https_proxy::trust::SignatureSchemeKind;

#[test]
fn test_no_certificate_verification_supported_schemes() {
    let verifier = NoCertificateVerification;
    let schemes = verifier.supported_verify_schemes();
    assert!(schemes.contains(&SignatureSchemeKind::RsaPkcs1Sha256));
    assert!(schemes.contains(&SignatureSchemeKind::EcdsaNistp256Sha256));
    assert!(schemes.contains(&SignatureSchemeKind::Ed25519));
    assert_eq!(schemes.len(), 10);
}

#[test]
fn test_no_certificate_verification_verify_server_cert() {
    let verifier = NoCertificateVerification;
    let cert = vec![0u8; 32];
    let server_name = String::from("example.com");
    let result = verifier.verify_server_cert(&cert, &vec![], &server_name);
    assert!(result);
}

#[test]
fn test_no_certificate_verification_accepts_signatures() {
    let verifier = NoCertificateVerification;
    let message = vec![1u8, 2, 3];
    let cert = vec![0u8; 16];
    let signature = vec![9u8; 64];
    assert!(verifier.verify_tls12_signature(&message, &cert, &signature));
    assert!(verifier.verify_tls13_signature(&message, &cert, &signature));
}
