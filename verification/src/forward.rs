//! The request forwarding engine for non-upgrade requests.
//!
//! One inbound request yields exactly one upstream attempt: the URI is
//! rewritten, the headers are transformed, and the upstream answer — or its
//! failure — maps to exactly one client-facing response. No caching, no
//! redirects, no retries.

use vstd::prelude::*;
use crate::headers::HeaderMultimap;
use crate::response::ProxyResponse;
use crate::response::bad_gateway_body;
use crate::response::bad_gateway_response;
use crate::transform::build_upstream_headers;
use crate::transform::upstream_headers;
use crate::uri::UriError;
use crate::uri::build_upstream_uri;
use crate::uri::opt_str_view;
use crate::uri::path_or_root;
use crate::uri::target_uri_parts;
use crate::uri::upstream_uri_view;

verus! {

/// What the proxy sends upstream: the rewritten URI and the transformed
/// headers. The upstream leg always speaks HTTP/1.1, whatever the inbound
/// version; the body streams through unchanged.
pub struct PreparedRequest {
    pub uri: String,
    pub headers: HeaderMultimap,
}

/// The decision for one inbound non-upgrade request: send a request
/// upstream, or answer the client at once with a synthesized response.
pub enum ForwardPlan {
    Send(PreparedRequest),
    Respond(ProxyResponse),
}

/// Decides what to send upstream: rewrites the URI onto the target origin
/// and builds the upstream-safe headers. A target that does not yield a
/// valid URI is answered with a 502 instead, and nothing is sent.
pub fn prepare_forward(
    original_pq: Option<&str>,
    target: &str,
    peer_ip: &str,
    headers: &HeaderMultimap,
    inbound_authority: Option<&str>,
) -> (r: ForwardPlan)
    ensures
        ({
            let pq = path_or_root(opt_str_view(original_pq));
            match r {
                ForwardPlan::Send(p) => target_uri_parts(target@) matches Some(tp) && p.uri@
                    == upstream_uri_view(tp, pq) && target_uri_parts(
                    upstream_uri_view(tp, pq),
                ) is Some && p.headers@ == upstream_headers(
                    headers@,
                    peer_ip@,
                    opt_str_view(inbound_authority),
                ),
                ForwardPlan::Respond(resp) => resp.status == 502 && resp.body@
                    == bad_gateway_body("Invalid upstream URI"@) && (target_uri_parts(
                    target@,
                ) is None || target_uri_parts(
                    upstream_uri_view(target_uri_parts(target@).unwrap(), pq),
                ) is None),
            }
        }),
{
    let uri = match build_upstream_uri(original_pq, target) {
        Ok(u) => u,
        Err(UriError::InvalidTarget) => {
            return ForwardPlan::Respond(bad_gateway_response("Invalid upstream URI"));
        },
    };
    let h = build_upstream_headers(headers, peer_ip, inbound_authority);
    ForwardPlan::Send(PreparedRequest { uri, headers: h })
}

/// The upstream outcome as the decision logic sees it: a response with its
/// status and headers (the body streams through outside this function), or
/// a transport failure — connect refused, timeout, TLS failure, broken
/// pipe.
pub enum UpstreamOutcome {
    Response(u16, HeaderMultimap),
    TransportFailure,
}

/// The client-facing reply: the upstream response passed through verbatim,
/// or a response the proxy synthesized itself.
pub enum ClientReply {
    Passthrough(u16, HeaderMultimap),
    Synthesized(ProxyResponse),
}

/// Maps the upstream outcome to the client reply. An upstream response
/// passes through with status and headers exactly as received; a transport
/// failure becomes a 502 naming the failure category. This is the only
/// error path: nothing is retried.
pub fn reply_for_upstream(outcome: UpstreamOutcome) -> (r: ClientReply)
    ensures
        outcome matches UpstreamOutcome::Response(status, h) ==> r == ClientReply::Passthrough(
            status,
            h,
        ),
        outcome is TransportFailure ==> (r matches ClientReply::Synthesized(resp) && resp.status
            == 502 && resp.body@ == bad_gateway_body("Upstream connection failed"@)
            && resp.headers@ =~= seq![("content-type"@, "text/plain; charset=utf-8"@)]),
{
    match outcome {
        UpstreamOutcome::Response(status, h) => ClientReply::Passthrough(status, h),
        UpstreamOutcome::TransportFailure => ClientReply::Synthesized(
            bad_gateway_response("Upstream connection failed"),
        ),
    }
}

} // verus!
