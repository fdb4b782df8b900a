//! The header-normalization pipeline.
//!
//! Upstream-safe headers are produced from the inbound headers in three
//! steps: cookie merging, forwarding headers, hop-by-hop stripping — in
//! that order, with the inbound `Host` captured before any step runs. The
//! inbound request's own headers are never mutated; the pipeline builds a
//! new set.

use vstd::prelude::*;
use crate::chars::contains_lower;
use crate::chars::contains_seq;
use crate::chars::eq_ignore_case;
use crate::chars::join_with;
use crate::chars::joined;
use crate::chars::lemma_eq_ignore_case_len;
use crate::chars::lower;
use crate::chars::str_eq_ignore_case;
use crate::chars::trim;
use crate::chars::trim_str;
use crate::headers::HeaderMultimap;
use crate::headers::HeadersView;
use crate::headers::first_value;
use crate::headers::has_header;
use crate::headers::lemma_first_value_push;
use crate::headers::lemma_first_value_some_iff_has;
use crate::headers::lemma_values_of_empty_iff;
use crate::headers::lemma_values_of_push;
use crate::headers::lemma_without_any_not_has;
use crate::headers::lemma_without_any_other_values;
use crate::headers::lemma_without_not_has;
use crate::headers::lemma_without_other_values;
use crate::headers::name_in_list;
use crate::headers::name_is;
use crate::headers::values_of;
use crate::headers::without;
use crate::headers::without_any;
use crate::uri::opt_str_view;

verus! {

/// Some field of this name has a value whose ASCII-lowered form contains
/// the given (lowercase) word.
pub open spec fn header_value_contains(hs: HeadersView, n: Seq<char>, word: Seq<char>) -> bool {
    exists|i: int|
        0 <= i < hs.len() && name_is(#[trigger] hs[i], n) && contains_seq(lower(hs[i].1), word)
}

/// The request asks to switch protocols to WebSocket: the `Connection`
/// value contains `upgrade` and the `Upgrade` value contains `websocket`,
/// case-insensitively.
pub open spec fn is_upgrade(hs: HeadersView) -> bool {
    header_value_contains(hs, "connection"@, "upgrade"@) && header_value_contains(
        hs,
        "upgrade"@,
        "websocket"@,
    )
}

/// Whether some value of this header contains the given lowercase word,
/// case-insensitively.
pub fn header_contains(headers: &HeaderMultimap, name: &str, value: &str) -> (r: bool)
    ensures
        r == header_value_contains(headers@, name@, value@),
{
    let n = headers.len();
    let mut i: usize = 0;
    while i < n
        invariant
            n == headers@.len(),
            0 <= i <= n,
            forall|k: int|
                0 <= k < i ==> !(name_is(#[trigger] headers@[k], name@) && contains_seq(
                    lower(headers@[k].1),
                    value@,
                )),
        decreases n - i,
    {
        if str_eq_ignore_case(headers.name_at(i).as_str(), name) && contains_lower(
            headers.value_at(i).as_str(),
            value,
        ) {
            return true;
        }
        i += 1;
    }
    false
}

/// Whether the request is a WebSocket upgrade request.
pub fn is_websocket_upgrade(headers: &HeaderMultimap) -> (r: bool)
    ensures
        r == is_upgrade(headers@),
{
    header_contains(headers, "connection", "upgrade") && header_contains(
        headers,
        "upgrade",
        "websocket",
    )
}

/// Each value trimmed of surrounding whitespace.
pub open spec fn trimmed_values(vs: Seq<Seq<char>>) -> Seq<Seq<char>> {
    vs.map_values(|v: Seq<char>| trim(v))
}

/// Cookie values as the merge sees them: trimmed, with empty ones dropped.
pub open spec fn cleaned_list(vs: Seq<Seq<char>>) -> Seq<Seq<char>> {
    trimmed_values(vs).filter(|v: Seq<char>| v.len() > 0)
}

/// The cookie values of a multimap, cleaned.
pub open spec fn cleaned_cookies(hs: HeadersView) -> Seq<Seq<char>> {
    cleaned_list(values_of(hs, "cookie"@))
}

/// The multimap after cookie normalization: two or more cookie values merge
/// into a single `Cookie` field joined with `"; "`; zero or one leave the
/// multimap unchanged.
pub open spec fn with_merged_cookies(hs: HeadersView) -> HeadersView {
    if cleaned_cookies(hs).len() <= 1 {
        hs
    } else {
        without(hs, "cookie"@).push(("cookie"@, joined(cleaned_cookies(hs), "; "@)))
    }
}

/// Cleaning one more value appends its trimmed form exactly when that is
/// non-empty.
proof fn lemma_cleaned_list_push(vs: Seq<Seq<char>>, x: Seq<char>)
    ensures
        trim(x).len() > 0 ==> cleaned_list(vs.push(x)) == cleaned_list(vs).push(trim(x)),
        trim(x).len() == 0 ==> cleaned_list(vs.push(x)) == cleaned_list(vs),
{
    reveal(Seq::filter);
    assert(trimmed_values(vs.push(x)) =~= trimmed_values(vs).push(trim(x)));
    assert(trimmed_values(vs).push(trim(x)).drop_last() =~= trimmed_values(vs));
}

/// Merges several `Cookie` fields into one, joined with `"; "` — never a
/// comma, which cookie syntax does not allow as a separator. Zero or one
/// cookie value leaves the headers unchanged.
pub fn normalize_cookie_headers(headers: &mut HeaderMultimap)
    ensures
        final(headers)@ == with_merged_cookies(old(headers)@),
{
    let ghost cvals = values_of(old(headers)@, "cookie"@);
    let vals = headers.get_all("cookie");
    let n = vals.len();
    let mut cleaned: Vec<String> = Vec::new();
    let mut i: usize = 0;
    while i < n
        invariant
            headers@ == old(headers)@,
            cvals == values_of(old(headers)@, "cookie"@),
            vals@.map_values(|v: String| v@) == cvals,
            n == vals@.len(),
            0 <= i <= n,
            cleaned@.map_values(|v: String| v@) == cleaned_list(cvals.take(i as int)),
        decreases n - i,
    {
        proof {
            assert(cvals[i as int] == vals@[i as int]@);
            assert(cvals.take(i + 1) =~= cvals.take(i as int).push(cvals[i as int]));
            lemma_cleaned_list_push(cvals.take(i as int), cvals[i as int]);
        }
        let t = trim_str(vals[i].as_str());
        if !t.as_str().is_empty() {
            cleaned.push(t);
            proof {
                assert(cleaned@.map_values(|v: String| v@) =~= cleaned_list(cvals.take(i + 1)));
            }
        } else {
            proof {
                assert(cleaned@.map_values(|v: String| v@) =~= cleaned_list(cvals.take(i + 1)));
            }
        }
        i += 1;
    }
    proof {
        assert(cvals.take(n as int) =~= cvals);
    }
    if cleaned.len() <= 1 {
        return ;
    }
    let merged = join_with(&cleaned, "; ");
    headers.remove_all("cookie");
    headers.append("cookie", merged.as_str());
}

/// The `X-Forwarded-For` value the proxy sends upstream: the peer IP alone
/// when the header is absent or blank, else the existing value with
/// `", <peer IP>"` appended.
pub open spec fn xff_value(hs: HeadersView, ip: Seq<char>) -> Seq<char> {
    match first_value(hs, "x-forwarded-for"@) {
        Some(v) => if trim(v).len() == 0 {
            ip
        } else {
            v + ", "@ + ip
        },
        None => ip,
    }
}

/// The multimap after the forwarding headers: `X-Real-IP` always set to the
/// peer IP, `X-Forwarded-For` set or extended, and `X-Forwarded-Proto`,
/// `X-Forwarded-Host`, `X-Forwarded-Port` set only when absent.
pub open spec fn with_forwarding(hs: HeadersView, ip: Seq<char>, host: Option<Seq<char>>)
    -> HeadersView {
    let h1 = without(hs, "x-real-ip"@).push(("x-real-ip"@, ip));
    let h2 = without(h1, "x-forwarded-for"@).push(("x-forwarded-for"@, xff_value(hs, ip)));
    let h3 = if has_header(h2, "x-forwarded-proto"@) {
        h2
    } else {
        h2.push(("x-forwarded-proto"@, "https"@))
    };
    let h4 = match host {
        Some(hv) => if has_header(h3, "x-forwarded-host"@) {
            h3
        } else {
            h3.push(("x-forwarded-host"@, hv))
        },
        None => h3,
    };
    if has_header(h4, "x-forwarded-port"@) {
        h4
    } else {
        h4.push(("x-forwarded-port"@, "443"@))
    }
}

/// Adds the forwarding headers for a request accepted from `peer_ip`.
/// `X-Real-IP` is always overwritten: it must reflect the network peer,
/// never a client-supplied value.
pub fn add_forwarding_headers(
    headers: &mut HeaderMultimap,
    peer_ip: &str,
    original_host: Option<&str>,
)
    ensures
        final(headers)@ == with_forwarding(old(headers)@, peer_ip@, opt_str_view(original_host)),
{
    let xff: String = match headers.get_first("x-forwarded-for") {
        Some(existing) => {
            let t = trim_str(existing.as_str());
            if t.as_str().is_empty() {
                peer_ip.to_owned()
            } else {
                existing.concat(", ").concat(peer_ip)
            }
        },
        None => peer_ip.to_owned(),
    };
    headers.insert("x-real-ip", peer_ip);
    headers.insert("x-forwarded-for", xff.as_str());
    if !headers.contains_name("x-forwarded-proto") {
        headers.append("x-forwarded-proto", "https");
    }
    match original_host {
        Some(host) => {
            if !headers.contains_name("x-forwarded-host") {
                headers.append("x-forwarded-host", host);
            }
        },
        None => {},
    }
    if !headers.contains_name("x-forwarded-port") {
        headers.append("x-forwarded-port", "443");
    }
}

/// The hop-by-hop header names: connection-scoped, never forwarded to a
/// distinct upstream connection.
pub open spec fn hop_by_hop_names() -> Seq<Seq<char>> {
    seq![
        "connection"@,
        "keep-alive"@,
        "proxy-authenticate"@,
        "proxy-authorization"@,
        "te"@,
        "trailers"@,
        "transfer-encoding"@,
        "upgrade"@,
    ]
}

/// Removes the hop-by-hop headers; every other field survives in order.
pub fn remove_hop_by_hop_headers(headers: &mut HeaderMultimap)
    ensures
        final(headers)@ == without_any(old(headers)@, hop_by_hop_names()),
{
    let names: Vec<&str> = vec![
        "connection",
        "keep-alive",
        "proxy-authenticate",
        "proxy-authorization",
        "te",
        "trailers",
        "transfer-encoding",
        "upgrade",
    ];
    proof {
        assert(names@.map_values(|s: &str| s@) =~= hop_by_hop_names());
    }
    headers.remove_names(names.as_slice());
}

/// The inbound Host, captured before any mutation; falls back to the
/// inbound URI's authority.
pub open spec fn captured_host(hs: HeadersView, auth: Option<Seq<char>>) -> Option<Seq<char>> {
    match first_value(hs, "host"@) {
        Some(v) => Some(v),
        None => auth,
    }
}

/// The upstream-safe header set for a non-upgrade request: cookies merged,
/// then forwarding headers, then hop-by-hop stripping, with the inbound
/// Host captured first.
pub open spec fn upstream_headers(hs: HeadersView, ip: Seq<char>, auth: Option<Seq<char>>)
    -> HeadersView {
    without_any(
        with_forwarding(with_merged_cookies(hs), ip, captured_host(hs, auth)),
        hop_by_hop_names(),
    )
}

/// Builds the upstream-safe headers for a request accepted from `peer_ip`.
/// The inbound headers are read, never changed.
pub fn build_upstream_headers(
    headers: &HeaderMultimap,
    peer_ip: &str,
    inbound_authority: Option<&str>,
) -> (r: HeaderMultimap)
    ensures
        r@ == upstream_headers(headers@, peer_ip@, opt_str_view(inbound_authority)),
{
    let host: Option<String> = match headers.get_first("host") {
        Some(v) => Some(v),
        None => match inbound_authority {
            Some(a) => Some(a.to_owned()),
            None => None,
        },
    };
    let mut out = headers.clone();
    normalize_cookie_headers(&mut out);
    match &host {
        Some(h) => add_forwarding_headers(&mut out, peer_ip, Some(h.as_str())),
        None => add_forwarding_headers(&mut out, peer_ip, None),
    }
    remove_hop_by_hop_headers(&mut out);
    out
}

/// Cleaning a list of values that are already trimmed and non-empty
/// changes nothing.
proof fn lemma_cleaned_list_identity(vs: Seq<Seq<char>>)
    requires
        forall|i: int|
            0 <= i < vs.len() ==> trim(#[trigger] vs[i]) == vs[i] && vs[i].len() > 0,
    ensures
        cleaned_list(vs) == vs,
    decreases vs.len(),
{
    reveal(Seq::filter);
    if vs.len() == 0 {
        assert(cleaned_list(vs) =~= vs);
    } else {
        assert forall|i: int| 0 <= i < vs.drop_last().len() implies trim(
            #[trigger] vs.drop_last()[i],
        ) == vs.drop_last()[i] && vs.drop_last()[i].len() > 0 by {
            assert(vs.drop_last()[i] == vs[i]);
        }
        lemma_cleaned_list_identity(vs.drop_last());
        assert(vs.drop_last().push(vs.last()) =~= vs);
        lemma_cleaned_list_push(vs.drop_last(), vs.last());
        assert(cleaned_list(vs) =~= vs);
    }
}

/// Law: cookie values that carry no surrounding whitespace and are
/// non-empty take part in the merge exactly as they stand, in order.
pub proof fn lemma_cleaned_cookies_identity(hs: HeadersView)
    requires
        forall|i: int|
            0 <= i < values_of(hs, "cookie"@).len() ==> trim(
                #[trigger] values_of(hs, "cookie"@)[i],
            ) == values_of(hs, "cookie"@)[i] && values_of(hs, "cookie"@)[i].len() > 0,
    ensures
        cleaned_cookies(hs) == values_of(hs, "cookie"@),
{
    lemma_cleaned_list_identity(values_of(hs, "cookie"@));
}

/// Merging cookies leaves every other name's values and first value as
/// they were.
proof fn lemma_cookies_other_values(hs: HeadersView, m: Seq<char>)
    requires
        !eq_ignore_case(m, "cookie"@),
    ensures
        values_of(with_merged_cookies(hs), m) == values_of(hs, m),
        first_value(with_merged_cookies(hs), m) == first_value(hs, m),
{
    if cleaned_cookies(hs).len() > 1 {
        let x = ("cookie"@, joined(cleaned_cookies(hs), "; "@));
        lemma_without_other_values(hs, "cookie"@, m);
        lemma_values_of_push(without(hs, "cookie"@), x, m);
        lemma_first_value_push(without(hs, "cookie"@), x, m);
    }
}

/// The forwarding step leaves any name other than the five it sets
/// untouched.
proof fn lemma_forwarding_other_values(
    hs: HeadersView,
    ip: Seq<char>,
    host: Option<Seq<char>>,
    m: Seq<char>,
)
    requires
        !eq_ignore_case(m, "x-real-ip"@),
        !eq_ignore_case(m, "x-forwarded-for"@),
        !eq_ignore_case(m, "x-forwarded-proto"@),
        !eq_ignore_case(m, "x-forwarded-host"@),
        !eq_ignore_case(m, "x-forwarded-port"@),
    ensures
        values_of(with_forwarding(hs, ip, host), m) == values_of(hs, m),
        first_value(with_forwarding(hs, ip, host), m) == first_value(hs, m),
{
    let h1a = without(hs, "x-real-ip"@);
    let h1 = h1a.push(("x-real-ip"@, ip));
    lemma_without_other_values(hs, "x-real-ip"@, m);
    lemma_values_of_push(h1a, ("x-real-ip"@, ip), m);
    lemma_first_value_push(h1a, ("x-real-ip"@, ip), m);
    let h2a = without(h1, "x-forwarded-for"@);
    let h2 = h2a.push(("x-forwarded-for"@, xff_value(hs, ip)));
    lemma_without_other_values(h1, "x-forwarded-for"@, m);
    lemma_values_of_push(h2a, ("x-forwarded-for"@, xff_value(hs, ip)), m);
    lemma_first_value_push(h2a, ("x-forwarded-for"@, xff_value(hs, ip)), m);
    let h3 = if has_header(h2, "x-forwarded-proto"@) {
        h2
    } else {
        h2.push(("x-forwarded-proto"@, "https"@))
    };
    lemma_values_of_push(h2, ("x-forwarded-proto"@, "https"@), m);
    lemma_first_value_push(h2, ("x-forwarded-proto"@, "https"@), m);
    let h4 = match host {
        Some(hv) => if has_header(h3, "x-forwarded-host"@) {
            h3
        } else {
            h3.push(("x-forwarded-host"@, hv))
        },
        None => h3,
    };
    if host is Some {
        lemma_values_of_push(h3, ("x-forwarded-host"@, host.unwrap()), m);
        lemma_first_value_push(h3, ("x-forwarded-host"@, host.unwrap()), m);
    }
    lemma_values_of_push(h4, ("x-forwarded-port"@, "443"@), m);
    lemma_first_value_push(h4, ("x-forwarded-port"@, "443"@), m);
}

/// The name is none of the hop-by-hop names.
proof fn lemma_not_in_hop_names(m: Seq<char>)
    requires
        !eq_ignore_case(m, "connection"@),
        !eq_ignore_case(m, "keep-alive"@),
        !eq_ignore_case(m, "proxy-authenticate"@),
        !eq_ignore_case(m, "proxy-authorization"@),
        !eq_ignore_case(m, "te"@),
        !eq_ignore_case(m, "trailers"@),
        !eq_ignore_case(m, "transfer-encoding"@),
        !eq_ignore_case(m, "upgrade"@),
    ensures
        !name_in_list(m, hop_by_hop_names()),
{
    let ns = hop_by_hop_names();
    assert(ns.len() == 8);
    assert forall|j: int| 0 <= j < ns.len() implies !eq_ignore_case(m, #[trigger] ns[j]) by {
        assert(ns[0] == "connection"@);
        assert(ns[1] == "keep-alive"@);
        assert(ns[2] == "proxy-authenticate"@);
        assert(ns[3] == "proxy-authorization"@);
        assert(ns[4] == "te"@);
        assert(ns[5] == "trailers"@);
        assert(ns[6] == "transfer-encoding"@);
        assert(ns[7] == "upgrade"@);
    }
}

/// The name differs, even ignoring case, from every name the pipeline
/// itself writes or strips.
pub open spec fn untouched_name(m: Seq<char>) -> bool {
    &&& !eq_ignore_case(m, "cookie"@)
    &&& !eq_ignore_case(m, "x-real-ip"@)
    &&& !eq_ignore_case(m, "x-forwarded-for"@)
    &&& !eq_ignore_case(m, "x-forwarded-proto"@)
    &&& !eq_ignore_case(m, "x-forwarded-host"@)
    &&& !eq_ignore_case(m, "x-forwarded-port"@)
    &&& !name_in_list(m, hop_by_hop_names())
}

/// Law: two or more cookie values merge into exactly one `Cookie` field,
/// whose value is the cleaned values joined with `"; "` in their input
/// order — and that is all the pipeline holds under the name `Cookie`.
pub proof fn lemma_upstream_headers_cookie_merge(
    hs: HeadersView,
    ip: Seq<char>,
    auth: Option<Seq<char>>,
)
    requires
        cleaned_cookies(hs).len() >= 2,
    ensures
        values_of(upstream_headers(hs, ip, auth), "cookie"@) == seq![
            joined(cleaned_cookies(hs), "; "@),
        ],
{
    reveal_strlit("cookie");
    reveal_strlit("x-real-ip");
    reveal_strlit("x-forwarded-for");
    reveal_strlit("x-forwarded-proto");
    reveal_strlit("x-forwarded-host");
    reveal_strlit("x-forwarded-port");
    reveal_strlit("connection");
    reveal_strlit("keep-alive");
    reveal_strlit("proxy-authenticate");
    reveal_strlit("proxy-authorization");
    reveal_strlit("te");
    reveal_strlit("trailers");
    reveal_strlit("transfer-encoding");
    reveal_strlit("upgrade");
    lemma_eq_ignore_case_len("cookie"@, "x-real-ip"@);
    lemma_eq_ignore_case_len("cookie"@, "x-forwarded-for"@);
    lemma_eq_ignore_case_len("cookie"@, "x-forwarded-proto"@);
    lemma_eq_ignore_case_len("cookie"@, "x-forwarded-host"@);
    lemma_eq_ignore_case_len("cookie"@, "x-forwarded-port"@);
    lemma_eq_ignore_case_len("cookie"@, "connection"@);
    lemma_eq_ignore_case_len("cookie"@, "keep-alive"@);
    lemma_eq_ignore_case_len("cookie"@, "proxy-authenticate"@);
    lemma_eq_ignore_case_len("cookie"@, "proxy-authorization"@);
    lemma_eq_ignore_case_len("cookie"@, "te"@);
    lemma_eq_ignore_case_len("cookie"@, "trailers"@);
    lemma_eq_ignore_case_len("cookie"@, "transfer-encoding"@);
    lemma_eq_ignore_case_len("cookie"@, "upgrade"@);
    lemma_not_in_hop_names("cookie"@);
    let merged = ("cookie"@, joined(cleaned_cookies(hs), "; "@));
    let stage1 = with_merged_cookies(hs);
    lemma_without_not_has(hs, "cookie"@);
    lemma_values_of_empty_iff(without(hs, "cookie"@), "cookie"@);
    lemma_values_of_push(without(hs, "cookie"@), merged, "cookie"@);
    assert(values_of(without(hs, "cookie"@), "cookie"@) =~= Seq::<Seq<char>>::empty());
    assert(values_of(stage1, "cookie"@) =~= seq![joined(cleaned_cookies(hs), "; "@)]);
    let host = captured_host(hs, auth);
    lemma_forwarding_other_values(stage1, ip, host, "cookie"@);
    lemma_without_any_other_values(with_forwarding(stage1, ip, host), hop_by_hop_names(), "cookie"@);
}

/// Law: zero or one cookie value leaves the `Cookie` fields of the
/// transformed request exactly as they came in.
pub proof fn lemma_upstream_headers_cookie_passthrough(
    hs: HeadersView,
    ip: Seq<char>,
    auth: Option<Seq<char>>,
)
    requires
        values_of(hs, "cookie"@).len() <= 1,
    ensures
        with_merged_cookies(hs) == hs,
        values_of(upstream_headers(hs, ip, auth), "cookie"@) == values_of(hs, "cookie"@),
{
    broadcast use vstd::seq_lib::group_filter_ensures;

    reveal_strlit("cookie");
    reveal_strlit("x-real-ip");
    reveal_strlit("x-forwarded-for");
    reveal_strlit("x-forwarded-proto");
    reveal_strlit("x-forwarded-host");
    reveal_strlit("x-forwarded-port");
    reveal_strlit("connection");
    reveal_strlit("keep-alive");
    reveal_strlit("proxy-authenticate");
    reveal_strlit("proxy-authorization");
    reveal_strlit("te");
    reveal_strlit("trailers");
    reveal_strlit("transfer-encoding");
    reveal_strlit("upgrade");
    let cvals = values_of(hs, "cookie"@);
    assert(trimmed_values(cvals).len() == cvals.len());
    assert(cleaned_cookies(hs).len() <= trimmed_values(cvals).len());
    lemma_eq_ignore_case_len("cookie"@, "x-real-ip"@);
    lemma_eq_ignore_case_len("cookie"@, "x-forwarded-for"@);
    lemma_eq_ignore_case_len("cookie"@, "x-forwarded-proto"@);
    lemma_eq_ignore_case_len("cookie"@, "x-forwarded-host"@);
    lemma_eq_ignore_case_len("cookie"@, "x-forwarded-port"@);
    lemma_eq_ignore_case_len("cookie"@, "connection"@);
    lemma_eq_ignore_case_len("cookie"@, "keep-alive"@);
    lemma_eq_ignore_case_len("cookie"@, "proxy-authenticate"@);
    lemma_eq_ignore_case_len("cookie"@, "proxy-authorization"@);
    lemma_eq_ignore_case_len("cookie"@, "te"@);
    lemma_eq_ignore_case_len("cookie"@, "trailers"@);
    lemma_eq_ignore_case_len("cookie"@, "transfer-encoding"@);
    lemma_eq_ignore_case_len("cookie"@, "upgrade"@);
    lemma_not_in_hop_names("cookie"@);
    let host = captured_host(hs, auth);
    lemma_forwarding_other_values(hs, ip, host, "cookie"@);
    lemma_without_any_other_values(with_forwarding(hs, ip, host), hop_by_hop_names(), "cookie"@);
}

/// The forwarding step always ends with the `X-Forwarded-For` value the
/// policy prescribes.
proof fn lemma_forwarding_sets_xff(hs: HeadersView, ip: Seq<char>, host: Option<Seq<char>>)
    ensures
        first_value(with_forwarding(hs, ip, host), "x-forwarded-for"@) == Some(xff_value(hs, ip)),
{
    let h1a = without(hs, "x-real-ip"@);
    let h1 = h1a.push(("x-real-ip"@, ip));
    let h2a = without(h1, "x-forwarded-for"@);
    let h2 = h2a.push(("x-forwarded-for"@, xff_value(hs, ip)));
    lemma_without_not_has(h1, "x-forwarded-for"@);
    lemma_first_value_push(h2a, ("x-forwarded-for"@, xff_value(hs, ip)), "x-forwarded-for"@);
    let h3 = if has_header(h2, "x-forwarded-proto"@) {
        h2
    } else {
        h2.push(("x-forwarded-proto"@, "https"@))
    };
    lemma_first_value_push(h2, ("x-forwarded-proto"@, "https"@), "x-forwarded-for"@);
    let h4 = match host {
        Some(hv) => if has_header(h3, "x-forwarded-host"@) {
            h3
        } else {
            h3.push(("x-forwarded-host"@, hv))
        },
        None => h3,
    };
    if host is Some {
        lemma_first_value_push(h3, ("x-forwarded-host"@, host.unwrap()), "x-forwarded-for"@);
    }
    lemma_first_value_push(h4, ("x-forwarded-port"@, "443"@), "x-forwarded-for"@);
}

/// Law: the transformed request's first `X-Forwarded-For` value is the
/// peer IP alone when the inbound header was absent or blank, and the
/// inbound value with `", <peer IP>"` appended otherwise.
pub proof fn lemma_upstream_headers_sets_xff(
    hs: HeadersView,
    ip: Seq<char>,
    auth: Option<Seq<char>>,
)
    ensures
        first_value(upstream_headers(hs, ip, auth), "x-forwarded-for"@) == Some(xff_value(hs, ip)),
{
    reveal_strlit("cookie");
    reveal_strlit("x-forwarded-for");
    reveal_strlit("connection");
    reveal_strlit("keep-alive");
    reveal_strlit("proxy-authenticate");
    reveal_strlit("proxy-authorization");
    reveal_strlit("te");
    reveal_strlit("trailers");
    reveal_strlit("transfer-encoding");
    reveal_strlit("upgrade");
    lemma_eq_ignore_case_len("x-forwarded-for"@, "cookie"@);
    lemma_eq_ignore_case_len("x-forwarded-for"@, "connection"@);
    lemma_eq_ignore_case_len("x-forwarded-for"@, "keep-alive"@);
    lemma_eq_ignore_case_len("x-forwarded-for"@, "proxy-authenticate"@);
    lemma_eq_ignore_case_len("x-forwarded-for"@, "proxy-authorization"@);
    lemma_eq_ignore_case_len("x-forwarded-for"@, "te"@);
    lemma_eq_ignore_case_len("x-forwarded-for"@, "trailers"@);
    lemma_eq_ignore_case_len("x-forwarded-for"@, "transfer-encoding"@);
    lemma_eq_ignore_case_len("x-forwarded-for"@, "upgrade"@);
    lemma_not_in_hop_names("x-forwarded-for"@);
    let stage1 = with_merged_cookies(hs);
    lemma_cookies_other_values(hs, "x-forwarded-for"@);
    let host = captured_host(hs, auth);
    lemma_forwarding_sets_xff(stage1, ip, host);
    lemma_without_any_other_values(
        with_forwarding(stage1, ip, host),
        hop_by_hop_names(),
        "x-forwarded-for"@,
    );
}

/// The forwarding step never changes an `X-Forwarded-Proto` that is
/// already there.
proof fn lemma_forwarding_proto_preserved(hs: HeadersView, ip: Seq<char>, host: Option<Seq<char>>)
    requires
        has_header(hs, "x-forwarded-proto"@),
    ensures
        first_value(with_forwarding(hs, ip, host), "x-forwarded-proto"@) == first_value(
            hs,
            "x-forwarded-proto"@,
        ),
{
    reveal_strlit("x-real-ip");
    reveal_strlit("x-forwarded-for");
    reveal_strlit("x-forwarded-proto");
    lemma_eq_ignore_case_len("x-real-ip"@, "x-forwarded-proto"@);
    lemma_eq_ignore_case_len("x-forwarded-for"@, "x-forwarded-proto"@);
    lemma_first_value_some_iff_has(hs, "x-forwarded-proto"@);
    let h1a = without(hs, "x-real-ip"@);
    let h1 = h1a.push(("x-real-ip"@, ip));
    lemma_without_other_values(hs, "x-real-ip"@, "x-forwarded-proto"@);
    lemma_first_value_push(h1a, ("x-real-ip"@, ip), "x-forwarded-proto"@);
    let h2a = without(h1, "x-forwarded-for"@);
    let h2 = h2a.push(("x-forwarded-for"@, xff_value(hs, ip)));
    lemma_without_other_values(h1, "x-forwarded-for"@, "x-forwarded-proto"@);
    lemma_first_value_push(h2a, ("x-forwarded-for"@, xff_value(hs, ip)), "x-forwarded-proto"@);
    lemma_first_value_some_iff_has(h2, "x-forwarded-proto"@);
    let h3 = h2;
    let h4 = match host {
        Some(hv) => if has_header(h3, "x-forwarded-host"@) {
            h3
        } else {
            h3.push(("x-forwarded-host"@, hv))
        },
        None => h3,
    };
    if host is Some {
        lemma_first_value_push(h3, ("x-forwarded-host"@, host.unwrap()), "x-forwarded-proto"@);
    }
    lemma_first_value_push(h4, ("x-forwarded-port"@, "443"@), "x-forwarded-proto"@);
}

/// Law: an `X-Forwarded-Proto` the request already carries is never
/// overwritten; its first value survives the whole pipeline.
pub proof fn lemma_upstream_headers_proto_preserved(
    hs: HeadersView,
    ip: Seq<char>,
    auth: Option<Seq<char>>,
)
    requires
        has_header(hs, "x-forwarded-proto"@),
    ensures
        first_value(upstream_headers(hs, ip, auth), "x-forwarded-proto"@) == first_value(
            hs,
            "x-forwarded-proto"@,
        ),
{
    reveal_strlit("cookie");
    reveal_strlit("x-forwarded-proto");
    reveal_strlit("connection");
    reveal_strlit("keep-alive");
    reveal_strlit("proxy-authenticate");
    reveal_strlit("proxy-authorization");
    reveal_strlit("te");
    reveal_strlit("trailers");
    reveal_strlit("transfer-encoding");
    reveal_strlit("upgrade");
    lemma_eq_ignore_case_len("x-forwarded-proto"@, "cookie"@);
    lemma_eq_ignore_case_len("x-forwarded-proto"@, "connection"@);
    lemma_eq_ignore_case_len("x-forwarded-proto"@, "keep-alive"@);
    lemma_eq_ignore_case_len("x-forwarded-proto"@, "proxy-authenticate"@);
    lemma_eq_ignore_case_len("x-forwarded-proto"@, "proxy-authorization"@);
    lemma_eq_ignore_case_len("x-forwarded-proto"@, "te"@);
    lemma_eq_ignore_case_len("x-forwarded-proto"@, "trailers"@);
    lemma_eq_ignore_case_len("x-forwarded-proto"@, "upgrade"@);
    assert(lower("x-forwarded-proto"@)[0] == crate::chars::lower_char('x'));
    assert(lower("transfer-encoding"@)[0] == crate::chars::lower_char('t'));
    assert(!eq_ignore_case("x-forwarded-proto"@, "transfer-encoding"@));
    lemma_not_in_hop_names("x-forwarded-proto"@);
    let stage1 = with_merged_cookies(hs);
    lemma_cookies_other_values(hs, "x-forwarded-proto"@);
    lemma_first_value_some_iff_has(hs, "x-forwarded-proto"@);
    lemma_first_value_some_iff_has(stage1, "x-forwarded-proto"@);
    let host = captured_host(hs, auth);
    lemma_forwarding_proto_preserved(stage1, ip, host);
    lemma_without_any_other_values(
        with_forwarding(stage1, ip, host),
        hop_by_hop_names(),
        "x-forwarded-proto"@,
    );
}

/// Law: no hop-by-hop name survives the pipeline.
pub proof fn lemma_upstream_headers_strips_hop_by_hop(
    hs: HeadersView,
    ip: Seq<char>,
    auth: Option<Seq<char>>,
    n: Seq<char>,
)
    requires
        name_in_list(n, hop_by_hop_names()),
    ensures
        !has_header(upstream_headers(hs, ip, auth), n),
{
    lemma_without_any_not_has(
        with_forwarding(with_merged_cookies(hs), ip, captured_host(hs, auth)),
        hop_by_hop_names(),
        n,
    );
}

/// Law: a header the pipeline has no business with keeps all its values,
/// in order.
pub proof fn lemma_upstream_headers_preserves_unrelated(
    hs: HeadersView,
    ip: Seq<char>,
    auth: Option<Seq<char>>,
    m: Seq<char>,
)
    requires
        untouched_name(m),
    ensures
        values_of(upstream_headers(hs, ip, auth), m) == values_of(hs, m),
{
    let stage1 = with_merged_cookies(hs);
    lemma_cookies_other_values(hs, m);
    let host = captured_host(hs, auth);
    lemma_forwarding_other_values(stage1, ip, host, m);
    lemma_without_any_other_values(with_forwarding(stage1, ip, host), hop_by_hop_names(), m);
}

} // verus!
