use cf_cdn::config::Config;
use cf_cdn::error::CdnError;
use cf_cdn::tunnel::{on_cloudflared_line, tunnel_url_in_line, version_check_outcome, TunnelManager};

fn tunnel_message<T: std::fmt::Debug>(r: Result<T, CdnError>) -> String {
    match r {
        Err(CdnError::Tunnel(m)) => m,
        other => panic!("expected a tunnel error, got {:?}", other),
    }
}

#[test]
fn finds_url_followed_by_space() {
    let line = "2024-01-01T00:00:00Z INF |  https://quiet-marble-otter.trycloudflare.com                 |";
    assert_eq!(
        tunnel_url_in_line(line).as_deref(),
        Some("https://quiet-marble-otter.trycloudflare.com")
    );
}

#[test]
fn finds_url_at_end_of_line_and_trims() {
    let line = "INF Visit it at https://a-b-c.trycloudflare.com\t\r";
    assert_eq!(
        tunnel_url_in_line(line).as_deref(),
        Some("https://a-b-c.trycloudflare.com")
    );
}

#[test]
fn ignores_other_urls() {
    assert_eq!(tunnel_url_in_line("see https://developers.cloudflare.com for docs"), None);
    assert_eq!(tunnel_url_in_line("no url here"), None);
    assert_eq!(tunnel_url_in_line("https://example.com trycloudflare.com"), None);
    assert_eq!(tunnel_url_in_line(""), None);
}

#[test]
fn only_first_https_is_considered() {
    let line = "https://first.example https://x.trycloudflare.com";
    assert_eq!(tunnel_url_in_line(line), None);
}

#[test]
fn waiting_for_the_url() {
    assert_eq!(
        on_cloudflared_line(Some("https://q.trycloudflare.com "), true).unwrap().as_deref(),
        Some("https://q.trycloudflare.com")
    );
    assert_eq!(on_cloudflared_line(Some("starting"), false).unwrap(), None);
    assert_eq!(
        tunnel_message(on_cloudflared_line(Some("starting"), true)),
        "Timeout waiting for cloudflared URL"
    );
    assert_eq!(
        tunnel_message(on_cloudflared_line(None, false)),
        "cloudflared did not produce a tunnel URL"
    );
}

#[test]
fn version_check() {
    assert!(version_check_outcome(Ok(true)).is_ok());
    assert_eq!(
        tunnel_message(version_check_outcome(Ok(false))),
        "cloudflared --version returned non-zero exit code"
    );
    assert_eq!(
        tunnel_message(version_check_outcome(Err("No such file or directory".to_string()))),
        "cloudflared not found. Install with: sudo apt install cloudflared. Error: No such file or directory"
    );
}

#[test]
fn tunnel_origin_needs_enabled_tunnel() {
    let mut c = Config::default();
    let m = TunnelManager::new(c.clone());
    assert_eq!(tunnel_message(m.tunnel_origin()), "Tunnel disabled in config");
    c.tunnel.enabled = true;
    c.tunnel.local_port = 8080;
    let m = TunnelManager::new(c);
    assert_eq!(m.tunnel_origin().unwrap(), "http://127.0.0.1:8080");
}
