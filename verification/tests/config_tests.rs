use cf_cdn::config::ConfigSource;
use cf_cdn::error::CdnError;
use cf_cdn::config::urlencoding::encode;
use cf_cdn::config::{
    default_bind, default_encryption, default_log_level, default_network, default_port,
    default_ws_path, Config, LoggingConfig, ServerConfig, TunnelConfig, VlessConfig,
};

fn sample() -> Config {
    Config {
        server: ServerConfig {
            bind: "0.0.0.0".to_string(),
            port: 8888,
            ws_path: "/vless".to_string(),
        },
        vless: VlessConfig {
            uuid: "550e8400-e29b-41d4-a716-446655440000".to_string(),
            encryption: "none".to_string(),
            network: "tcp".to_string(),
        },
        tunnel: TunnelConfig {
            enabled: true,
            local_port: 8888,
            tunnel_url: None,
        },
        logging: LoggingConfig { level: "info".to_string() },
    }
}

#[test]
fn defaults() {
    assert_eq!(default_bind(), "127.0.0.1");
    assert_eq!(default_port(), 8080);
    assert_eq!(default_ws_path(), "/vless");
    assert_eq!(default_encryption(), "none");
    assert_eq!(default_network(), "tcp");
    assert_eq!(default_log_level(), "info");
    assert_eq!(LoggingConfig::default().level, "info");
}

#[test]
fn default_config_has_random_v4_uuid() {
    let c = Config::default();
    assert_eq!(c.server.bind, "127.0.0.1");
    assert_eq!(c.server.port, 8080);
    assert_eq!(c.server.ws_path, "/vless");
    assert_eq!(c.vless.encryption, "none");
    assert_eq!(c.vless.network, "tcp");
    assert!(!c.tunnel.enabled);
    assert_eq!(c.tunnel.local_port, 8080);
    assert!(c.tunnel.tunnel_url.is_none());
    assert_eq!(c.logging.level, "info");
    let u = c.vless.uuid.as_bytes();
    assert_eq!(u.len(), 36);
    for (i, ch) in u.iter().enumerate() {
        if i == 8 || i == 13 || i == 18 || i == 23 {
            assert_eq!(*ch, b'-');
        } else {
            assert!(ch.is_ascii_digit() || (b'a'..=b'f').contains(ch), "{}", c.vless.uuid);
        }
    }
    assert_eq!(u[14], b'4');
    assert!(matches!(u[19], b'8' | b'9' | b'a' | b'b'));
    let other = Config::default();
    assert_ne!(c.vless.uuid, other.vless.uuid);
}

#[test]
fn url_encoding() {
    assert_eq!(encode("/vless"), "%2Fvless");
    assert_eq!(encode("AZaz09-_.~"), "AZaz09-_.~");
    assert_eq!(encode("a b?c=d&e"), "a%20b%3Fc%3Dd%26e");
    assert_eq!(encode(""), "");
    // Non-ASCII characters are written as their UTF-8 bytes.
    assert_eq!(encode("é"), "%C3%A9");
    assert_eq!(encode("€"), "%E2%82%AC");
    // Distinct texts get distinct encodings.
    assert_ne!(encode("ĩ"), encode(")"));
    assert_eq!(encode(")"), "%29");
    assert_eq!(encode("ĩ"), "%C4%A9");
}

#[test]
fn vless_link_local_and_tunnel() {
    let c = sample();
    assert_eq!(
        c.vless_link(None),
        "vless://550e8400-e29b-41d4-a716-446655440000@0.0.0.0:8888?encryption=none&type=ws&path=%2Fvless"
    );
    let mut c2 = sample();
    c2.server.ws_path = "/ws".to_string();
    assert_eq!(
        c2.vless_link(Some("quiet-marble-otter.trycloudflare.com")),
        "vless://550e8400-e29b-41d4-a716-446655440000@quiet-marble-otter.trycloudflare.com?encryption=none&type=ws&path=%2Fws"
    );
}

#[test]
fn vmss_subscription_is_base64_of_link_line() {
    let c = sample();
    assert_eq!(
        c.vmss_subscription(None),
        "dmxlc3M6Ly81NTBlODQwMC1lMjliLTQxZDQtYTcxNi00NDY2NTU0NDAwMDBAMC4wLjAuMDo4ODg4P2VuY3J5cHRpb249bm9uZSZ0eXBlPXdzJnBhdGg9JTJGdmxlc3MK"
    );
    let mut c2 = sample();
    c2.server.ws_path = "/ws".to_string();
    assert_eq!(
        c2.vmss_subscription(Some("quiet-marble-otter.trycloudflare.com")),
        "dmxlc3M6Ly81NTBlODQwMC1lMjliLTQxZDQtYTcxNi00NDY2NTU0NDAwMDBAcXVpZXQtbWFyYmxlLW90dGVyLnRyeWNsb3VkZmxhcmUuY29tP2VuY3J5cHRpb249bm9uZSZ0eXBlPXdzJnBhdGg9JTJGd3MK"
    );
}

#[test]
fn default_uuid_is_accepted_by_validation() {
    let c = Config::default();
    let s = c.vless.uuid.replace('-', "");
    let mut bytes = [0u8; 16];
    for i in 0..16 {
        bytes[i] = u8::from_str_radix(&s[2 * i..2 * i + 2], 16).unwrap();
    }
    assert!(cf_cdn::vless::validate_uuid(&bytes, &c.vless.uuid).is_ok());
}

#[test]
fn config_from_source() {
    let c = Config::from_source(ConfigSource::Parsed(Ok(sample()))).unwrap();
    assert_eq!(c.server.bind, "0.0.0.0");
    let d = Config::from_source(ConfigSource::Missing).unwrap();
    assert_eq!(d.server.bind, "127.0.0.1");
    assert_eq!(d.server.port, 8080);
    match Config::from_source(ConfigSource::Parsed(Err("bad toml".to_string()))) {
        Err(CdnError::Config(m)) => assert_eq!(m, "bad toml"),
        other => panic!("{:?}", other),
    }
    match Config::from_source(ConfigSource::Unreadable("denied".to_string())) {
        Err(CdnError::Io(m)) => assert_eq!(m, "denied"),
        other => panic!("{:?}", other),
    }
}
