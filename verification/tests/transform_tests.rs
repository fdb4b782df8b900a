use https_proxy::headers::HeaderMultimap;
use https_proxy::transform::add_forwarding_headers;
use https_proxy::transform::build_upstream_headers;
use https_proxy::transform::header_contains;
use https_proxy::transform::is_websocket_upgrade;
use https_proxy::transform::normalize_cookie_headers;
use https_proxy::transform::remove_hop_by_hop_headers;

#[test]
fn test_header_contains_single_value() {
    let mut h = HeaderMultimap::new();
    h.append("connection", "upgrade");
    assert!(header_contains(&h, "connection", "upgrade"));
}

#[test]
fn test_header_contains_case_insensitive() {
    let mut h = HeaderMultimap::new();
    h.append("Connection", "Upgrade");
    assert!(header_contains(&h, "connection", "upgrade"));
}

#[test]
fn test_header_contains_multiple_values() {
    let mut h = HeaderMultimap::new();
    h.append("connection", "keep-alive, upgrade");
    assert!(header_contains(&h, "connection", "upgrade"));
    assert!(header_contains(&h, "connection", "keep-alive"));
}

#[test]
fn test_header_contains_not_found() {
    let mut h = HeaderMultimap::new();
    h.append("connection", "keep-alive");
    assert!(!header_contains(&h, "connection", "upgrade"));
}

#[test]
fn test_is_websocket_upgrade_valid() {
    let mut h = HeaderMultimap::new();
    h.append("connection", "upgrade");
    h.append("upgrade", "websocket");
    assert!(is_websocket_upgrade(&h));
}

#[test]
fn test_is_websocket_upgrade_missing_connection() {
    let mut h = HeaderMultimap::new();
    h.append("upgrade", "websocket");
    assert!(!is_websocket_upgrade(&h));
}

#[test]
fn test_is_websocket_upgrade_missing_upgrade() {
    let mut h = HeaderMultimap::new();
    h.append("connection", "upgrade");
    assert!(!is_websocket_upgrade(&h));
}

#[test]
fn test_is_websocket_upgrade_mixed_case() {
    let mut h = HeaderMultimap::new();
    h.append("Connection", "keep-alive, Upgrade");
    h.append("Upgrade", "WebSocket");
    assert!(is_websocket_upgrade(&h));
}

#[test]
fn test_is_websocket_upgrade_h2c_is_not() {
    let mut h = HeaderMultimap::new();
    h.append("connection", "upgrade");
    h.append("upgrade", "h2c");
    assert!(!is_websocket_upgrade(&h));
}

#[test]
fn test_normalize_cookie_headers_single() {
    let mut h = HeaderMultimap::new();
    h.append("cookie", "session=abc");
    normalize_cookie_headers(&mut h);
    assert_eq!(h.get_first("cookie").unwrap(), "session=abc");
}

#[test]
fn test_normalize_cookie_headers_multiple() {
    let mut h = HeaderMultimap::new();
    h.append("cookie", "session=abc");
    h.append("cookie", "token=xyz");
    normalize_cookie_headers(&mut h);
    assert_eq!(h.get_first("cookie").unwrap(), "session=abc; token=xyz");
    assert_eq!(h.get_all("cookie").len(), 1);
}

#[test]
fn test_normalize_cookie_headers_empty() {
    let mut h = HeaderMultimap::new();
    normalize_cookie_headers(&mut h);
    assert!(h.get_first("cookie").is_none());
}

#[test]
fn test_normalize_cookie_headers_three_in_order() {
    let mut h = HeaderMultimap::new();
    h.append("cookie", "a=1");
    h.append("cookie", "b=2");
    h.append("cookie", "c=3");
    normalize_cookie_headers(&mut h);
    assert_eq!(h.get_all("cookie"), vec!["a=1; b=2; c=3"]);
}

#[test]
fn test_normalize_cookie_headers_trims_and_drops_blank() {
    let mut h = HeaderMultimap::new();
    h.append("cookie", "  a=1  ");
    h.append("cookie", "   ");
    h.append("cookie", "b=2");
    normalize_cookie_headers(&mut h);
    assert_eq!(h.get_all("cookie"), vec!["a=1; b=2"]);
}

#[test]
fn test_add_forwarding_headers_new() {
    let mut h = HeaderMultimap::new();
    add_forwarding_headers(&mut h, "192.168.1.100", Some("example.com"));
    assert_eq!(h.get_first("x-real-ip").unwrap(), "192.168.1.100");
    assert_eq!(h.get_first("x-forwarded-for").unwrap(), "192.168.1.100");
    assert_eq!(h.get_first("x-forwarded-proto").unwrap(), "https");
    assert_eq!(h.get_first("x-forwarded-host").unwrap(), "example.com");
    assert_eq!(h.get_first("x-forwarded-port").unwrap(), "443");
}

#[test]
fn test_add_forwarding_headers_append_xff() {
    let mut h = HeaderMultimap::new();
    h.append("x-forwarded-for", "10.0.0.1, 10.0.0.2");
    add_forwarding_headers(&mut h, "192.168.1.100", None);
    assert_eq!(
        h.get_first("x-forwarded-for").unwrap(),
        "10.0.0.1, 10.0.0.2, 192.168.1.100"
    );
}

#[test]
fn test_add_forwarding_headers_append_xff_single() {
    let mut h = HeaderMultimap::new();
    h.append("x-forwarded-for", "10.0.0.1");
    add_forwarding_headers(&mut h, "192.168.1.100", None);
    assert_eq!(
        h.get_first("x-forwarded-for").unwrap(),
        "10.0.0.1, 192.168.1.100"
    );
}

#[test]
fn test_add_forwarding_headers_blank_xff_no_leading_comma() {
    let mut h = HeaderMultimap::new();
    h.append("x-forwarded-for", "");
    add_forwarding_headers(&mut h, "192.168.1.100", None);
    assert_eq!(h.get_first("x-forwarded-for").unwrap(), "192.168.1.100");
}

#[test]
fn test_add_forwarding_headers_preserves_existing_proto() {
    let mut h = HeaderMultimap::new();
    h.append("x-forwarded-proto", "http");
    add_forwarding_headers(&mut h, "192.168.1.100", None);
    assert_eq!(h.get_first("x-forwarded-proto").unwrap(), "http");
}

#[test]
fn test_add_forwarding_headers_overwrites_real_ip() {
    let mut h = HeaderMultimap::new();
    h.append("x-real-ip", "1.2.3.4");
    add_forwarding_headers(&mut h, "192.168.1.100", None);
    assert_eq!(h.get_all("x-real-ip"), vec!["192.168.1.100"]);
}

#[test]
fn test_remove_hop_by_hop_headers() {
    let mut h = HeaderMultimap::new();
    h.append("connection", "keep-alive");
    h.append("keep-alive", "timeout=5");
    h.append("transfer-encoding", "chunked");
    h.append("upgrade", "websocket");
    h.append("content-type", "text/plain");
    h.append("x-custom", "value");
    remove_hop_by_hop_headers(&mut h);
    assert!(h.get_first("connection").is_none());
    assert!(h.get_first("keep-alive").is_none());
    assert!(h.get_first("transfer-encoding").is_none());
    assert!(h.get_first("upgrade").is_none());
    assert!(h.get_first("content-type").is_some());
    assert!(h.get_first("x-custom").is_some());
}

#[test]
fn test_build_upstream_headers_pipeline() {
    let mut h = HeaderMultimap::new();
    h.append("Host", "edge.example.com");
    h.append("cookie", "a=1");
    h.append("cookie", "b=2");
    h.append("connection", "keep-alive");
    h.append("content-type", "application/json");
    let out = build_upstream_headers(&h, "10.0.0.50", None);
    assert_eq!(out.get_all("cookie"), vec!["a=1; b=2"]);
    assert!(out.get_first("connection").is_none());
    assert_eq!(out.get_first("content-type").unwrap(), "application/json");
    assert_eq!(out.get_first("x-forwarded-host").unwrap(), "edge.example.com");
    assert_eq!(out.get_first("x-real-ip").unwrap(), "10.0.0.50");
    assert_eq!(out.get_first("x-forwarded-proto").unwrap(), "https");
    assert_eq!(out.get_first("x-forwarded-port").unwrap(), "443");
    // the inbound set is untouched
    assert_eq!(h.get_all("cookie").len(), 2);
    assert!(h.get_first("connection").is_some());
}

#[test]
fn test_build_upstream_headers_host_from_authority() {
    let h = HeaderMultimap::new();
    let out = build_upstream_headers(&h, "10.0.0.50", Some("fallback.example.com"));
    assert_eq!(
        out.get_first("x-forwarded-host").unwrap(),
        "fallback.example.com"
    );
}
