//! Upstream URI rewriting.
//!
//! The upstream URI is the target's scheme and authority with the inbound
//! path and query appended byte for byte: nothing is percent-decoded or
//! normalized. An inbound request without a path defaults to `/`.

use vstd::prelude::*;
use crate::chars::str_eq;

verus! {

/// Scheme and authority of a parsed target URI; either part may be absent.
pub struct TargetParts {
    pub scheme: Option<String>,
    pub authority: Option<String>,
}

impl View for TargetParts {
    type V = (Option<Seq<char>>, Option<Seq<char>>);

    open spec fn view(&self) -> Self::V {
        (
            match self.scheme {
                Some(s) => Some(s@),
                None => None,
            },
            match self.authority {
                Some(a) => Some(a@),
                None => None,
            },
        )
    }
}

/// What http's URI parser extracts from a string: `None` when the string
/// does not parse as a URI, else its optional scheme and optional authority.
pub uninterp spec fn target_uri_parts(s: Seq<char>) -> Option<
    (Option<Seq<char>>, Option<Seq<char>>),
>;

/// Relies on http::Uri's parser. Whether a string parses as a URI, and the
/// scheme and authority the parse yields, depend on the string alone.
#[verifier::external_body]
pub(crate) fn parse_target_uri(s: &str) -> (r: Option<TargetParts>)
    ensures
        r matches Some(p) ==> target_uri_parts(s@) == Some(p@),
        r is None ==> target_uri_parts(s@) is None,
{
    match s.parse::<http::Uri>() {
        Ok(u) => Some(
            TargetParts {
                scheme: u.scheme_str().map(|x: &str| x.to_string()),
                authority: u.authority().map(|a| a.as_str().to_string()),
            },
        ),
        Err(_) => None,
    }
}

/// The target's scheme, defaulting to `http` when it declares none.
pub open spec fn scheme_or_default(p: (Option<Seq<char>>, Option<Seq<char>>)) -> Seq<char> {
    match p.0 {
        Some(s) => s,
        None => "http"@,
    }
}

/// The WebSocket scheme for a target: `wss` when the target declares
/// `https`, else `ws`.
pub open spec fn ws_scheme_of(p: (Option<Seq<char>>, Option<Seq<char>>)) -> Seq<char> {
    if p.0 == Some("https"@) {
        "wss"@
    } else {
        "ws"@
    }
}

/// The target's authority, empty when it declares none.
pub open spec fn authority_or_empty(p: (Option<Seq<char>>, Option<Seq<char>>)) -> Seq<char> {
    match p.1 {
        Some(a) => a,
        None => Seq::empty(),
    }
}

/// The inbound path and query, defaulting to `/` when absent.
pub open spec fn path_or_root(pq: Option<Seq<char>>) -> Seq<char> {
    match pq {
        Some(s) => s,
        None => "/"@,
    }
}

/// `scheme://authority` followed by the path and query, unchanged.
pub open spec fn upstream_uri_view(
    p: (Option<Seq<char>>, Option<Seq<char>>),
    pq: Seq<char>,
) -> Seq<char> {
    scheme_or_default(p) + "://"@ + authority_or_empty(p) + pq
}

/// The WebSocket form: `ws://` or `wss://` followed by the same authority,
/// path and query.
pub open spec fn upstream_ws_url_view(
    p: (Option<Seq<char>>, Option<Seq<char>>),
    pq: Seq<char>,
) -> Seq<char> {
    ws_scheme_of(p) + "://"@ + authority_or_empty(p) + pq
}

/// The error of URI rewriting: the configured target does not parse as a
/// URI, or the rewritten URI is itself invalid.
#[derive(Debug, PartialEq, Eq, Structural)]
pub enum UriError {
    InvalidTarget,
}

/// The view of an optional inbound path-and-query string.
pub open spec fn opt_str_view(pq: Option<&str>) -> Option<Seq<char>> {
    match pq {
        Some(s) => Some(s@),
        None => None,
    }
}

/// Builds the upstream URI: the target origin's scheme and authority with
/// the inbound path and query concatenated byte for byte; a missing path
/// becomes `/`. Fails exactly when the target, or the URI built from it,
/// does not parse.
pub fn build_upstream_uri(original_pq: Option<&str>, target: &str) -> (r: Result<String, UriError>)
    ensures
        ({
            let pq = path_or_root(opt_str_view(original_pq));
            match r {
                Ok(u) => target_uri_parts(target@) matches Some(p) && u@ == upstream_uri_view(
                    p,
                    pq,
                ) && target_uri_parts(upstream_uri_view(p, pq)) is Some,
                Err(e) => e == UriError::InvalidTarget && (target_uri_parts(target@) is None
                    || target_uri_parts(
                    upstream_uri_view(target_uri_parts(target@).unwrap(), pq),
                ) is None),
            }
        }),
{
    let parts = match parse_target_uri(target) {
        Some(p) => p,
        None => {
            return Err(UriError::InvalidTarget);
        },
    };
    let u = assemble_uri(&parts, false, original_pq);
    proof {
        assert(u@ == upstream_uri_view(parts@, path_or_root(opt_str_view(original_pq))));
    }
    if parse_target_uri(u.as_str()).is_some() {
        Ok(u)
    } else {
        Err(UriError::InvalidTarget)
    }
}

/// Builds the upstream WebSocket URL: as [`build_upstream_uri`], with the
/// scheme replaced by `wss` for an `https` target and `ws` otherwise.
/// Fails exactly when the target does not parse.
pub fn build_upstream_ws_url(original_pq: Option<&str>, target: &str) -> (r: Result<
    String,
    UriError,
>)
    ensures
        ({
            let pq = path_or_root(opt_str_view(original_pq));
            match r {
                Ok(u) => target_uri_parts(target@) matches Some(p) && u@ == upstream_ws_url_view(
                    p,
                    pq,
                ),
                Err(e) => e == UriError::InvalidTarget && target_uri_parts(target@) is None,
            }
        }),
{
    let parts = match parse_target_uri(target) {
        Some(p) => p,
        None => {
            return Err(UriError::InvalidTarget);
        },
    };
    Ok(assemble_uri(&parts, true, original_pq))
}

/// Concatenates scheme, `://`, authority and path into one URI string.
fn assemble_uri(parts: &TargetParts, ws: bool, original_pq: Option<&str>) -> (u: String)
    ensures
        ws ==> u@ == upstream_ws_url_view(parts@, path_or_root(opt_str_view(original_pq))),
        !ws ==> u@ == upstream_uri_view(parts@, path_or_root(opt_str_view(original_pq))),
{
    let mut u = String::new();
    if ws {
        let is_https = match &parts.scheme {
            Some(s) => str_eq(s.as_str(), "https"),
            None => false,
        };
        if is_https {
            u.append("wss");
        } else {
            u.append("ws");
        }
    } else {
        match &parts.scheme {
            Some(s) => u.append(s.as_str()),
            None => u.append("http"),
        }
    }
    u.append("://");
    match &parts.authority {
        Some(a) => u.append(a.as_str()),
        None => {
            proof {
                assert(u@ + authority_or_empty(parts@) =~= u@);
            }
        },
    }
    match original_pq {
        Some(pq) => u.append(pq),
        None => u.append("/"),
    }
    u
}

} // verus!
