use cf_cdn::error::CdnError;
use cf_cdn::socks5::{format_connection, host_port, relay_step, RelayAction};
use cf_cdn::vless::Command;

#[test]
fn test_format_connection() {
    assert_eq!(
        format_connection(Command::TCP, "example.com", 443),
        "TCP to example.com:443"
    );
}

#[test]
fn format_connection_udp_and_edge_ports() {
    assert_eq!(format_connection(Command::UDP, "1.2.3.4", 0), "UDP to 1.2.3.4:0");
    assert_eq!(format_connection(Command::TCP, "", 65535), "TCP to :65535");
}

#[test]
fn host_port_text() {
    assert_eq!(host_port("127.0.0.1", 8080), "127.0.0.1:8080");
    assert_eq!(host_port("::1", 10), "::1:10");
}

#[test]
fn relay_decisions() {
    assert_eq!(relay_step(Ok(0)).unwrap(), RelayAction::Finish);
    assert_eq!(relay_step(Ok(512)).unwrap(), RelayAction::Forward(512));
    match relay_step(Err(CdnError::Io("reset".to_string()))) {
        Err(CdnError::Io(m)) => assert_eq!(m, "reset"),
        other => panic!("{:?}", other),
    }
}
