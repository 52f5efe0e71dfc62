use cf_cdn::config::Config;
use cf_cdn::error::CdnError;
use cf_cdn::session::{
    authorize, on_handshake_message, on_relay_event, HandshakeStep, RelayEvent, SessionAction,
    WsEvent,
};
use cf_cdn::vless::Command;

const UUID_TEXT: &str = "550e8400-e29b-41d4-a716-446655440000";
const UUID_BYTES: [u8; 16] = [
    0x55, 0x0e, 0x84, 0x00, 0xe2, 0x9b, 0x41, 0xd4, 0xa7, 0x16, 0x44, 0x66, 0x55, 0x44, 0x00, 0x00,
];

fn ipv4_header() -> Vec<u8> {
    let mut v = vec![0u8];
    v.extend_from_slice(&UUID_BYTES);
    v.extend_from_slice(&[1, 1, 93, 184, 216, 34, 0x01, 0xbb]);
    v
}

#[test]
fn header_split_over_messages() {
    let h = ipv4_header();
    let mut buf = Vec::new();
    match on_handshake_message(&mut buf, WsEvent::Binary(h[..10].to_vec())).unwrap() {
        HandshakeStep::Pending => {}
        other => panic!("{:?}", other),
    }
    assert_eq!(buf, h[..10].to_vec());
    let mut second = h[10..].to_vec();
    second.extend_from_slice(b"hello");
    match on_handshake_message(&mut buf, WsEvent::Binary(second)).unwrap() {
        HandshakeStep::Ready(req) => {
            assert_eq!(req.command, Command::TCP);
            assert_eq!(req.address, "93.184.216.34");
            assert_eq!(req.port, 443);
        }
        other => panic!("{:?}", other),
    }
    assert_eq!(buf, b"hello".to_vec());
}

#[test]
fn header_phase_errors() {
    let mut buf = Vec::new();
    match on_handshake_message(&mut buf, WsEvent::Other) {
        Err(CdnError::VlessProtocol(m)) => assert_eq!(m, "Expected binary message"),
        other => panic!("{:?}", other),
    }
    match on_handshake_message(&mut buf, WsEvent::End) {
        Err(CdnError::VlessProtocol(m)) => assert_eq!(m, "Unexpected end of stream"),
        other => panic!("{:?}", other),
    }
    match on_handshake_message(&mut buf, WsEvent::Error("boom".to_string())) {
        Err(CdnError::WebSocket(m)) => assert_eq!(m, "boom"),
        other => panic!("{:?}", other),
    }
    assert!(matches!(on_handshake_message(&mut buf, WsEvent::Close), Ok(HandshakeStep::Closed)));
}

#[test]
fn header_too_large() {
    // A header with an unknown command never parses; past 1024 bytes it is refused.
    let mut buf = Vec::new();
    let mut first = vec![0u8; 24];
    first[17] = 9;
    assert!(matches!(
        on_handshake_message(&mut buf, WsEvent::Binary(first)),
        Ok(HandshakeStep::Pending)
    ));
    assert!(matches!(
        on_handshake_message(&mut buf, WsEvent::Binary(vec![0u8; 1000])),
        Ok(HandshakeStep::Pending)
    ));
    assert_eq!(buf.len(), 1024);
    match on_handshake_message(&mut buf, WsEvent::Binary(vec![0u8; 1])) {
        Err(CdnError::VlessProtocol(m)) => assert_eq!(m, "Header too large"),
        other => panic!("{:?}", other),
    }
}

#[test]
fn authorization() {
    let mut buf = Vec::new();
    let req = match on_handshake_message(&mut buf, WsEvent::Binary(ipv4_header())).unwrap() {
        HandshakeStep::Ready(r) => r,
        other => panic!("{:?}", other),
    };
    let mut config = Config::default();
    config.vless.uuid = UUID_TEXT.to_string();
    assert_eq!(authorize(&req, &config).unwrap(), "TCP to 93.184.216.34:443");
    config.vless.uuid = UUID_TEXT.to_uppercase();
    assert!(authorize(&req, &config).is_ok());
    config.vless.uuid = "00000000-0000-0000-0000-000000000000".to_string();
    match authorize(&req, &config) {
        Err(CdnError::VlessProtocol(m)) => assert_eq!(m, "UUID mismatch"),
        other => panic!("{:?}", other),
    }
    config.vless.uuid = "zz".to_string();
    match authorize(&req, &config) {
        Err(CdnError::VlessProtocol(m)) => {
            assert!(m.starts_with("Invalid configured UUID: ") && m.len() > 25, "{}", m)
        }
        other => panic!("{:?}", other),
    }
}

#[test]
fn relay_events() {
    match on_relay_event(RelayEvent::Client(WsEvent::Binary(vec![1, 2]))).unwrap() {
        SessionAction::WriteDestination(d) => assert_eq!(d, vec![1, 2]),
        other => panic!("{:?}", other),
    }
    assert!(matches!(on_relay_event(RelayEvent::Client(WsEvent::Close)), Ok(SessionAction::Finish)));
    assert!(matches!(on_relay_event(RelayEvent::Client(WsEvent::End)), Ok(SessionAction::Finish)));
    assert!(matches!(on_relay_event(RelayEvent::Client(WsEvent::Other)), Ok(SessionAction::Ignore)));
    assert!(matches!(
        on_relay_event(RelayEvent::Client(WsEvent::Error("x".to_string()))),
        Err(CdnError::WebSocket(_))
    ));
    assert!(matches!(on_relay_event(RelayEvent::Destination(Ok(0))), Ok(SessionAction::Finish)));
    assert!(matches!(
        on_relay_event(RelayEvent::Destination(Ok(7))),
        Ok(SessionAction::SendClient(7))
    ));
    assert!(matches!(
        on_relay_event(RelayEvent::Destination(Err("reset".to_string()))),
        Ok(SessionAction::Finish)
    ));
}

use cf_cdn::session::{session_step, SessionEvent, SessionPhase, SessionStep};

fn config_with(uuid: &str) -> Config {
    let mut c = Config::default();
    c.vless.uuid = uuid.to_string();
    c
}

#[test]
fn session_connects_only_after_the_uuid_is_accepted() {
    let config = config_with(UUID_TEXT);
    let mut phase = SessionPhase::new();
    let h = ipv4_header();
    // Destination events before admission are ignored.
    assert!(matches!(
        session_step(&mut phase, &config, SessionEvent::Destination(Ok(5))),
        Ok(SessionStep::Relay(SessionAction::Ignore))
    ));
    assert!(matches!(
        session_step(&mut phase, &config, SessionEvent::Client(WsEvent::Binary(h[..20].to_vec()))),
        Ok(SessionStep::Continue)
    ));
    let mut rest = h[20..].to_vec();
    rest.extend_from_slice(b"GET");
    match session_step(&mut phase, &config, SessionEvent::Client(WsEvent::Binary(rest))).unwrap() {
        SessionStep::Connect(req, pending, summary) => {
            assert_eq!(req.address, "93.184.216.34");
            assert_eq!(req.port, 443);
            assert_eq!(pending, b"GET".to_vec());
            assert_eq!(summary, "TCP to 93.184.216.34:443");
        }
        other => panic!("{:?}", other),
    }
    assert!(matches!(phase, SessionPhase::Relay(u) if u == UUID_BYTES));
    match session_step(&mut phase, &config, SessionEvent::Client(WsEvent::Binary(vec![9, 9]))).unwrap() {
        SessionStep::Relay(SessionAction::WriteDestination(d)) => assert_eq!(d, vec![9, 9]),
        other => panic!("{:?}", other),
    }
    assert!(matches!(
        session_step(&mut phase, &config, SessionEvent::Destination(Ok(3))),
        Ok(SessionStep::Relay(SessionAction::SendClient(3)))
    ));
    assert!(matches!(
        session_step(&mut phase, &config, SessionEvent::Destination(Ok(0))),
        Ok(SessionStep::Relay(SessionAction::Finish))
    ));
    assert!(matches!(phase, SessionPhase::Closed));
    assert!(matches!(
        session_step(&mut phase, &config, SessionEvent::Client(WsEvent::Binary(vec![1]))),
        Ok(SessionStep::Relay(SessionAction::Finish))
    ));
}

#[test]
fn session_refuses_a_foreign_uuid() {
    let config = config_with("00000000-0000-0000-0000-000000000000");
    let mut phase = SessionPhase::new();
    match session_step(&mut phase, &config, SessionEvent::Client(WsEvent::Binary(ipv4_header()))) {
        Err(CdnError::VlessProtocol(m)) => assert_eq!(m, "UUID mismatch"),
        other => panic!("{:?}", other),
    }
    assert!(matches!(phase, SessionPhase::Closed));
    // A closed session never reaches the destination.
    assert!(matches!(
        session_step(&mut phase, &config, SessionEvent::Client(WsEvent::Binary(ipv4_header()))),
        Ok(SessionStep::Relay(SessionAction::Finish))
    ));
}

#[test]
fn session_close_during_header() {
    let config = config_with(UUID_TEXT);
    let mut phase = SessionPhase::new();
    assert!(matches!(
        session_step(&mut phase, &config, SessionEvent::Client(WsEvent::Close)),
        Ok(SessionStep::Relay(SessionAction::Finish))
    ));
    assert!(matches!(phase, SessionPhase::Closed));
}
