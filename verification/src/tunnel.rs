//! The WebSocket tunnel: handshake planning and relay decisions.
//!
//! An upgrade request is answered with `101 Switching Protocols` only when
//! it carries a `Sec-WebSocket-Key`; the accept key is derived from it as
//! RFC 6455 prescribes. Once both legs exist, two relay loops forward one
//! message at a time, each side preserving frames exactly as received; the
//! first side to end — cleanly or not — closes the whole tunnel.

use vstd::prelude::*;
use crate::handshake::accept_key_of;
use crate::handshake::derive_accept_key;
use crate::headers::HeaderMultimap;
use crate::headers::first_value;
use crate::response::ProxyResponse;
use crate::response::bad_gateway_body;
use crate::response::bad_gateway_response;
use crate::response::switching_protocols_response;
use crate::uri::build_upstream_ws_url;
use crate::uri::opt_str_view;
use crate::uri::path_or_root;
use crate::uri::target_uri_parts;
use crate::uri::upstream_ws_url_view;

verus! {

/// The plan for an accepted WebSocket upgrade: the `101` response committed
/// to the client, and the `ws://` or `wss://` URL of the upstream leg.
#[derive(Debug)]
pub struct UpgradePlan {
    pub response: ProxyResponse,
    pub upstream_url: String,
}

/// Plans a WebSocket upgrade: computes the upstream WebSocket URL from the
/// target, and the `101 Switching Protocols` response from the request's
/// `Sec-WebSocket-Key`. An invalid target, or a missing key, yields a 502
/// and no upgrade is attempted.
pub fn plan_upgrade(headers: &HeaderMultimap, original_pq: Option<&str>, target: &str) -> (r:
    Result<UpgradePlan, ProxyResponse>)
    ensures
        ({
            let pq = path_or_root(opt_str_view(original_pq));
            match r {
                Ok(plan) => target_uri_parts(target@) matches Some(tp) && plan.upstream_url@
                    == upstream_ws_url_view(tp, pq) && plan.response.status == 101
                    && plan.response.body@ == Seq::<char>::empty() && (first_value(
                    headers@,
                    "sec-websocket-key"@,
                ) matches Some(key) && plan.response.headers@ =~= seq![
                    ("Connection"@, "Upgrade"@),
                    ("Upgrade"@, "websocket"@),
                    ("Sec-WebSocket-Accept"@, accept_key_of(key)),
                ]),
                Err(resp) => resp.status == 502 && ((target_uri_parts(target@) is None
                    && resp.body@ == bad_gateway_body("Invalid target URI"@)) || (target_uri_parts(
                    target@,
                ) is Some && first_value(headers@, "sec-websocket-key"@) is None && resp.body@
                    == bad_gateway_body("Missing Sec-WebSocket-Key"@))),
            }
        }),
{
    let url = match build_upstream_ws_url(original_pq, target) {
        Ok(u) => u,
        Err(_) => {
            return Err(bad_gateway_response("Invalid target URI"));
        },
    };
    let key = match headers.get_first("sec-websocket-key") {
        Some(k) => k,
        None => {
            return Err(bad_gateway_response("Missing Sec-WebSocket-Key"));
        },
    };
    let accept = derive_accept_key(key.as_str());
    Ok(UpgradePlan { response: switching_protocols_response(accept.as_str()), upstream_url: url })
}

/// The kind of a relayed WebSocket frame. Text and binary frames carry
/// application data; everything else — ping, pong, close — is a control
/// frame, forwarded like the rest.
#[derive(Debug)]
pub enum FrameKind {
    Text,
    Binary,
    Control,
}

/// One WebSocket frame as the relay sees it: its kind and its payload.
#[derive(Debug)]
pub struct Frame {
    pub kind: FrameKind,
    pub payload: Vec<u8>,
}

/// What a tunnel observes next, from either leg.
#[derive(Debug)]
pub enum TunnelEvent {
    /// The client sent a frame.
    FrameFromClient(Frame),
    /// The upstream sent a frame.
    FrameFromUpstream(Frame),
    /// The client stream ended, cleanly or by error.
    ClientGone,
    /// The upstream stream ended, cleanly or by error.
    UpstreamGone,
    /// Forwarding a frame to the upstream failed.
    SendToUpstreamFailed,
    /// Forwarding a frame to the client failed.
    SendToClientFailed,
}

/// The tunnel's life: relaying between both legs, or closed as a whole.
/// There is no half-open state: termination is whole-tunnel.
#[derive(Debug)]
pub enum TunnelState {
    Relaying,
    Closed,
}

/// What the relay does in reaction to an event.
#[derive(Debug)]
pub enum TunnelAction {
    /// Forward this frame to the upstream leg, exactly as received.
    SendToUpstream(Frame),
    /// Forward this frame to the client leg, exactly as received.
    SendToClient(Frame),
    /// Tear down both legs.
    Shutdown,
}

/// One relay decision. While relaying, every received frame is forwarded
/// to the opposite side exactly once and exactly as received — same kind,
/// same payload, no buffering or splitting. Any closure or error on either
/// side, in either direction, closes the whole tunnel; a closed tunnel
/// only shuts down.
pub fn tunnel_step(state: TunnelState, event: TunnelEvent) -> (r: (TunnelState, TunnelAction))
    ensures
        state is Relaying ==> (match event {
            TunnelEvent::FrameFromClient(f) => r == (
                TunnelState::Relaying,
                TunnelAction::SendToUpstream(f),
            ),
            TunnelEvent::FrameFromUpstream(f) => r == (
                TunnelState::Relaying,
                TunnelAction::SendToClient(f),
            ),
            _ => r == (TunnelState::Closed, TunnelAction::Shutdown),
        }),
        state is Closed ==> r == (TunnelState::Closed, TunnelAction::Shutdown),
{
    match state {
        TunnelState::Relaying => match event {
            TunnelEvent::FrameFromClient(f) => (
                TunnelState::Relaying,
                TunnelAction::SendToUpstream(f),
            ),
            TunnelEvent::FrameFromUpstream(f) => (
                TunnelState::Relaying,
                TunnelAction::SendToClient(f),
            ),
            TunnelEvent::ClientGone => (TunnelState::Closed, TunnelAction::Shutdown),
            TunnelEvent::UpstreamGone => (TunnelState::Closed, TunnelAction::Shutdown),
            TunnelEvent::SendToUpstreamFailed => (TunnelState::Closed, TunnelAction::Shutdown),
            TunnelEvent::SendToClientFailed => (TunnelState::Closed, TunnelAction::Shutdown),
        },
        TunnelState::Closed => (TunnelState::Closed, TunnelAction::Shutdown),
    }
}

} // verus!
