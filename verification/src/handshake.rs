//! The WebSocket accept-key derivation.

use vstd::prelude::*;

verus! {

/// The RFC 6455 accept key for a `Sec-WebSocket-Key` value: the SHA-1 of
/// the key concatenated with the fixed WebSocket GUID, base64-encoded. It
/// is a function of the key alone.
pub uninterp spec fn accept_key_of(key: Seq<char>) -> Seq<char>;

/// Relies on tungstenite's `derive_accept_key`, which computes the RFC 6455
/// `Sec-WebSocket-Accept` value from the request key's bytes.
#[verifier::external_body]
pub(crate) fn derive_accept_key(key: &str) -> (r: String)
    ensures
        r@ == accept_key_of(key@),
{
    tokio_tungstenite::tungstenite::handshake::derive_accept_key(key.as_bytes())
}

} // verus!
