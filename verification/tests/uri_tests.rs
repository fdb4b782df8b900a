use https_proxy::response::bad_gateway_response;
use https_proxy::uri::build_upstream_uri;
use https_proxy::uri::build_upstream_ws_url;

#[test]
fn test_build_upstream_uri_simple() {
    let result = build_upstream_uri(Some("/api/users"), "http://backend:8080").unwrap();
    assert_eq!(result, "http://backend:8080/api/users");
}

#[test]
fn test_build_upstream_uri_with_query() {
    let result = build_upstream_uri(Some("/search?q=hello&page=2"), "http://backend:8080").unwrap();
    assert_eq!(result, "http://backend:8080/search?q=hello&page=2");
}

#[test]
fn test_build_upstream_uri_https() {
    let result = build_upstream_uri(Some("/api"), "https://api.example.com").unwrap();
    assert_eq!(result, "https://api.example.com/api");
}

#[test]
fn test_build_upstream_uri_root_path() {
    let result = build_upstream_uri(Some("/"), "http://backend:3000").unwrap();
    assert_eq!(result, "http://backend:3000/");
}

#[test]
fn test_build_upstream_uri_missing_path_defaults_to_root() {
    let result = build_upstream_uri(None, "http://backend:3000").unwrap();
    assert_eq!(result, "http://backend:3000/");
}

#[test]
fn test_build_upstream_uri_invalid_target() {
    let result = build_upstream_uri(Some("/"), "http://exa mple.com");
    assert!(result.is_err());
}

#[test]
fn test_build_upstream_ws_url_plain() {
    let result = build_upstream_ws_url(Some("/ws"), "http://backend:8080").unwrap();
    assert_eq!(result, "ws://backend:8080/ws");
}

#[test]
fn test_build_upstream_ws_url_tls() {
    let result = build_upstream_ws_url(Some("/ws"), "https://backend:8443").unwrap();
    assert_eq!(result, "wss://backend:8443/ws");
}

#[test]
fn test_bad_gateway_response() {
    let response = bad_gateway_response("Connection refused");
    assert_eq!(response.status, 502);
    assert_eq!(
        response.headers.get_first("content-type").unwrap(),
        "text/plain; charset=utf-8"
    );
    assert_eq!(response.body, "502 Bad Gateway - Connection refused");
}
