//! Synthesized client-facing responses.
//!
//! The proxy answers with exactly two kinds of response of its own: a
//! `502 Bad Gateway` for any proxy-level failure, and a `101 Switching
//! Protocols` for an accepted WebSocket upgrade. Everything else is passed
//! through from the upstream.

use vstd::prelude::*;
use crate::headers::HeaderMultimap;

verus! {

/// A response the proxy builds itself: status, headers and a small body.
#[derive(Debug)]
pub struct ProxyResponse {
    pub status: u16,
    pub headers: HeaderMultimap,
    pub body: String,
}

/// The body of a `502 Bad Gateway` response for a failure reason.
pub open spec fn bad_gateway_body(message: Seq<char>) -> Seq<char> {
    "502 Bad Gateway - "@ + message
}

/// A `502 Bad Gateway` response: plain text, with a body naming the
/// failure.
pub fn bad_gateway_response(message: &str) -> (r: ProxyResponse)
    ensures
        r.status == 502,
        r.headers@ =~= seq![("content-type"@, "text/plain; charset=utf-8"@)],
        r.body@ == bad_gateway_body(message@),
{
    let mut headers = HeaderMultimap::new();
    headers.append("content-type", "text/plain; charset=utf-8");
    let body = String::from_str("502 Bad Gateway - ").concat(message);
    ProxyResponse { status: 502, headers, body }
}

/// A `101 Switching Protocols` response carrying the computed
/// `Sec-WebSocket-Accept` key and an empty body.
pub fn switching_protocols_response(accept_key: &str) -> (r: ProxyResponse)
    ensures
        r.status == 101,
        r.headers@ =~= seq![
            ("Connection"@, "Upgrade"@),
            ("Upgrade"@, "websocket"@),
            ("Sec-WebSocket-Accept"@, accept_key@),
        ],
        r.body@ == Seq::<char>::empty(),
{
    let mut headers = HeaderMultimap::new();
    headers.append("Connection", "Upgrade");
    headers.append("Upgrade", "websocket");
    headers.append("Sec-WebSocket-Accept", accept_key);
    ProxyResponse { status: 101, headers, body: String::new() }
}

} // verus!
