use https_proxy::config::Config;
use https_proxy::config::Listener;
use https_proxy::forward::prepare_forward;
use https_proxy::forward::reply_for_upstream;
use https_proxy::forward::ClientReply;
use https_proxy::forward::ForwardPlan;
use https_proxy::forward::UpstreamOutcome;
use https_proxy::headers::HeaderMultimap;

#[test]
fn test_prepare_forward_builds_request() {
    let mut h = HeaderMultimap::new();
    h.append("Host", "edge.example.com");
    h.append("accept", "text/html");
    let plan = prepare_forward(
        Some("/search?q=hello&page=2"),
        "http://backend:8080",
        "192.168.1.100",
        &h,
        None,
    );
    match plan {
        ForwardPlan::Send(req) => {
            assert_eq!(req.uri, "http://backend:8080/search?q=hello&page=2");
            assert_eq!(req.headers.get_first("x-real-ip").unwrap(), "192.168.1.100");
            assert_eq!(req.headers.get_first("accept").unwrap(), "text/html");
        }
        ForwardPlan::Respond(_) => panic!("a valid target must be forwarded"),
    }
}

#[test]
fn test_prepare_forward_invalid_target() {
    let h = HeaderMultimap::new();
    let plan = prepare_forward(Some("/"), "http://exa mple.com", "192.168.1.100", &h, None);
    match plan {
        ForwardPlan::Respond(resp) => {
            assert_eq!(resp.status, 502);
            assert_eq!(resp.body, "502 Bad Gateway - Invalid upstream URI");
        }
        ForwardPlan::Send(_) => panic!("an invalid target must not be forwarded"),
    }
}

#[test]
fn test_reply_passes_status_through() {
    let mut h = HeaderMultimap::new();
    h.append("x-custom-header", "custom-value");
    h.append("cache-control", "no-cache");
    let reply = reply_for_upstream(UpstreamOutcome::Response(404, h));
    match reply {
        ClientReply::Passthrough(status, headers) => {
            assert_eq!(status, 404);
            assert_eq!(headers.get_first("x-custom-header").unwrap(), "custom-value");
            assert_eq!(headers.get_first("cache-control").unwrap(), "no-cache");
        }
        ClientReply::Synthesized(_) => panic!("an upstream response must pass through"),
    }
}

#[test]
fn test_reply_passes_created_through() {
    let reply = reply_for_upstream(UpstreamOutcome::Response(201, HeaderMultimap::new()));
    match reply {
        ClientReply::Passthrough(status, _) => assert_eq!(status, 201),
        ClientReply::Synthesized(_) => panic!("an upstream response must pass through"),
    }
}

#[test]
fn test_reply_502_on_transport_failure() {
    let reply = reply_for_upstream(UpstreamOutcome::TransportFailure);
    match reply {
        ClientReply::Synthesized(resp) => {
            assert_eq!(resp.status, 502);
            assert_eq!(resp.body, "502 Bad Gateway - Upstream connection failed");
            assert_eq!(
                resp.headers.get_first("content-type").unwrap(),
                "text/plain; charset=utf-8"
            );
        }
        ClientReply::Passthrough(_, _) => panic!("a transport failure must become a 502"),
    }
}

#[test]
fn test_config_holds_routes() {
    let config = Config {
        listeners: vec![
            Listener { port: 440, target: String::from("http://api:3000") },
            Listener { port: 441, target: String::from("http://app:3001") },
        ],
    };
    assert_eq!(config.listeners.len(), 2);
    assert_eq!(config.listeners[0].port, 440);
    assert_eq!(config.listeners[0].target, "http://api:3000");
    assert_eq!(config.listeners[1].port, 441);
}
