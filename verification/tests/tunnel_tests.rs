use https_proxy::headers::HeaderMultimap;
use https_proxy::tunnel::plan_upgrade;
use https_proxy::tunnel::tunnel_step;
use https_proxy::tunnel::Frame;
use https_proxy::tunnel::FrameKind;
use https_proxy::tunnel::TunnelAction;
use https_proxy::tunnel::TunnelEvent;
use https_proxy::tunnel::TunnelState;

#[test]
fn test_plan_upgrade_accepts_with_key() {
    let mut h = HeaderMultimap::new();
    h.append("connection", "upgrade");
    h.append("upgrade", "websocket");
    // the sample key of RFC 6455, whose accept value is fixed
    h.append("sec-websocket-key", "dGhlIHNhbXBsZSBub25jZQ==");
    let plan = plan_upgrade(&h, Some("/ws"), "http://backend:8080").unwrap();
    assert_eq!(plan.upstream_url, "ws://backend:8080/ws");
    assert_eq!(plan.response.status, 101);
    assert_eq!(plan.response.headers.get_first("Connection").unwrap(), "Upgrade");
    assert_eq!(plan.response.headers.get_first("Upgrade").unwrap(), "websocket");
    assert_eq!(
        plan.response.headers.get_first("Sec-WebSocket-Accept").unwrap(),
        "s3pPLMBiTxaQ9kYGzzhZRbK+xOo="
    );
    assert_eq!(plan.response.body, "");
}

#[test]
fn test_plan_upgrade_missing_key() {
    let mut h = HeaderMultimap::new();
    h.append("connection", "upgrade");
    h.append("upgrade", "websocket");
    let err = plan_upgrade(&h, Some("/ws"), "http://backend:8080").unwrap_err();
    assert_eq!(err.status, 502);
    assert_eq!(err.body, "502 Bad Gateway - Missing Sec-WebSocket-Key");
}

#[test]
fn test_plan_upgrade_invalid_target() {
    let mut h = HeaderMultimap::new();
    h.append("sec-websocket-key", "dGhlIHNhbXBsZSBub25jZQ==");
    let err = plan_upgrade(&h, Some("/ws"), "http://exa mple.com").unwrap_err();
    assert_eq!(err.status, 502);
    assert_eq!(err.body, "502 Bad Gateway - Invalid target URI");
}

#[test]
fn test_plan_upgrade_wss_for_https_target() {
    let mut h = HeaderMultimap::new();
    h.append("sec-websocket-key", "dGhlIHNhbXBsZSBub25jZQ==");
    let plan = plan_upgrade(&h, Some("/ws"), "https://backend:8443").unwrap();
    assert_eq!(plan.upstream_url, "wss://backend:8443/ws");
}

#[test]
fn test_tunnel_relays_client_frame_unchanged() {
    let frame = Frame {
        kind: FrameKind::Text,
        payload: b"Hello WebSocket".to_vec(),
    };
    let (state, action) = tunnel_step(TunnelState::Relaying, TunnelEvent::FrameFromClient(frame));
    assert!(matches!(state, TunnelState::Relaying));
    match action {
        TunnelAction::SendToUpstream(f) => {
            assert!(matches!(f.kind, FrameKind::Text));
            assert_eq!(f.payload, b"Hello WebSocket".to_vec());
        }
        _ => panic!("client frame must go to the upstream leg"),
    }
}

#[test]
fn test_tunnel_relays_upstream_frame_unchanged() {
    let frame = Frame {
        kind: FrameKind::Binary,
        payload: vec![0, 159, 146, 150],
    };
    let (state, action) = tunnel_step(TunnelState::Relaying, TunnelEvent::FrameFromUpstream(frame));
    assert!(matches!(state, TunnelState::Relaying));
    match action {
        TunnelAction::SendToClient(f) => {
            assert!(matches!(f.kind, FrameKind::Binary));
            assert_eq!(f.payload, vec![0, 159, 146, 150]);
        }
        _ => panic!("upstream frame must go to the client leg"),
    }
}

#[test]
fn test_tunnel_round_trip_preserves_payload() {
    // a frame sent by the client and echoed by the upstream comes back
    // byte for byte, with its kind intact
    let payload = b"Hello WebSocket".to_vec();
    let out = tunnel_step(
        TunnelState::Relaying,
        TunnelEvent::FrameFromClient(Frame { kind: FrameKind::Text, payload: payload.clone() }),
    );
    let echoed = match out.1 {
        TunnelAction::SendToUpstream(f) => f,
        _ => panic!("expected a forward to the upstream"),
    };
    let back = tunnel_step(out.0, TunnelEvent::FrameFromUpstream(echoed));
    match back.1 {
        TunnelAction::SendToClient(f) => {
            assert!(matches!(f.kind, FrameKind::Text));
            assert_eq!(f.payload, payload);
        }
        _ => panic!("expected a forward back to the client"),
    }
}

#[test]
fn test_tunnel_closes_when_client_gone() {
    let (state, action) = tunnel_step(TunnelState::Relaying, TunnelEvent::ClientGone);
    assert!(matches!(state, TunnelState::Closed));
    assert!(matches!(action, TunnelAction::Shutdown));
}

#[test]
fn test_tunnel_closes_when_upstream_gone() {
    let (state, action) = tunnel_step(TunnelState::Relaying, TunnelEvent::UpstreamGone);
    assert!(matches!(state, TunnelState::Closed));
    assert!(matches!(action, TunnelAction::Shutdown));
}

#[test]
fn test_tunnel_closes_on_send_failure() {
    let (state, action) = tunnel_step(TunnelState::Relaying, TunnelEvent::SendToUpstreamFailed);
    assert!(matches!(state, TunnelState::Closed));
    assert!(matches!(action, TunnelAction::Shutdown));
    let (state, action) = tunnel_step(TunnelState::Relaying, TunnelEvent::SendToClientFailed);
    assert!(matches!(state, TunnelState::Closed));
    assert!(matches!(action, TunnelAction::Shutdown));
}

#[test]
fn test_tunnel_stays_closed() {
    let frame = Frame { kind: FrameKind::Control, payload: vec![] };
    let (state, action) = tunnel_step(TunnelState::Closed, TunnelEvent::FrameFromClient(frame));
    assert!(matches!(state, TunnelState::Closed));
    assert!(matches!(action, TunnelAction::Shutdown));
}
