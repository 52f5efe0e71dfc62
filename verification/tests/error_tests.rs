use cf_cdn::error::CdnError;

#[test]
fn error_reports() {
    assert_eq!(
        CdnError::VlessProtocol("UUID mismatch".to_string()).to_string(),
        "VLESS protocol error: UUID mismatch"
    );
    assert_eq!(CdnError::WebSocket("x".to_string()).to_string(), "WebSocket error: x");
    assert_eq!(CdnError::Io("x".to_string()).to_string(), "IO error: x");
    assert_eq!(CdnError::Config("x".to_string()).to_string(), "Configuration error: x");
    assert_eq!(CdnError::Socks5("x".to_string()).to_string(), "SOCKS5 error: x");
    assert_eq!(CdnError::Tunnel("x".to_string()).to_string(), "Tunnel error: x");
    assert_eq!(CdnError::Connection("x".to_string()).to_string(), "Connection error: x");
    assert_eq!(CdnError::Timeout("x".to_string()).to_string(), "Timeout: x");
    assert_eq!(CdnError::InvalidUuid("x".to_string()).to_string(), "Invalid UUID: x");
    assert_eq!(CdnError::Encoding("x".to_string()).to_string(), "Encoding error: x");
}
