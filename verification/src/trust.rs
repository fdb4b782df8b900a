//! The upstream trust policy.
//!
//! A certificate-verification strategy for the proxy's own outbound TLS
//! connections (HTTPS forwarding and `wss` tunnels). The one implementation
//! accepts any certificate chain, any server name and any signature over
//! its supported scheme set.

use vstd::prelude::*;

verus! {

/// A signature scheme the trust policy is willing to see.
#[derive(Clone, Copy, PartialEq, Eq, Structural, Debug)]
pub enum SignatureSchemeKind {
    RsaPkcs1Sha256,
    RsaPkcs1Sha384,
    RsaPkcs1Sha512,
    EcdsaNistp256Sha256,
    EcdsaNistp384Sha384,
    EcdsaNistp521Sha512,
    RsaPssSha256,
    RsaPssSha384,
    RsaPssSha512,
    Ed25519,
}

/// The scheme set the policy supports, in order.
pub open spec fn supported_schemes() -> Seq<SignatureSchemeKind> {
    seq![
        SignatureSchemeKind::RsaPkcs1Sha256,
        SignatureSchemeKind::RsaPkcs1Sha384,
        SignatureSchemeKind::RsaPkcs1Sha512,
        SignatureSchemeKind::EcdsaNistp256Sha256,
        SignatureSchemeKind::EcdsaNistp384Sha384,
        SignatureSchemeKind::EcdsaNistp521Sha512,
        SignatureSchemeKind::RsaPssSha256,
        SignatureSchemeKind::RsaPssSha384,
        SignatureSchemeKind::RsaPssSha512,
        SignatureSchemeKind::Ed25519,
    ]
}

/// A server certificate verifier that accepts any certificate.
///
/// # Security Warning
/// This provides NO security against MitM attacks on the upstream leg. It
/// is a deliberate operational choice for proxying to self-signed internal
/// services, and must stay clearly documented as such.
pub struct NoCertificateVerification;

impl NoCertificateVerification {
    /// The trust-all decision over a presented certificate chain and server
    /// name: every input is accepted.
    pub fn verify_server_cert(
        &self,
        _end_entity: &Vec<u8>,
        _intermediates: &Vec<Vec<u8>>,
        _server_name: &String,
    ) -> (r: bool)
        ensures
            r,
    {
        true
    }

    /// The trust-all decision over a TLS 1.2 handshake signature: every
    /// input is accepted.
    pub fn verify_tls12_signature(
        &self,
        _message: &Vec<u8>,
        _cert: &Vec<u8>,
        _signature: &Vec<u8>,
    ) -> (r: bool)
        ensures
            r,
    {
        true
    }

    /// The trust-all decision over a TLS 1.3 handshake signature: every
    /// input is accepted.
    pub fn verify_tls13_signature(
        &self,
        _message: &Vec<u8>,
        _cert: &Vec<u8>,
        _signature: &Vec<u8>,
    ) -> (r: bool)
        ensures
            r,
    {
        true
    }

    /// The signature schemes the policy announces support for.
    pub fn supported_verify_schemes(&self) -> (r: Vec<SignatureSchemeKind>)
        ensures
            r@ == supported_schemes(),
    {
        let r = vec![
            SignatureSchemeKind::RsaPkcs1Sha256,
            SignatureSchemeKind::RsaPkcs1Sha384,
            SignatureSchemeKind::RsaPkcs1Sha512,
            SignatureSchemeKind::EcdsaNistp256Sha256,
            SignatureSchemeKind::EcdsaNistp384Sha384,
            SignatureSchemeKind::EcdsaNistp521Sha512,
            SignatureSchemeKind::RsaPssSha256,
            SignatureSchemeKind::RsaPssSha384,
            SignatureSchemeKind::RsaPssSha512,
            SignatureSchemeKind::Ed25519,
        ];
        proof {
            assert(r@ =~= supported_schemes());
        }
        r
    }
}

} // verus!
