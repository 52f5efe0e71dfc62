//! Server configuration, its defaults, and the client share links derived
//! from it.

pub mod urlencoding;

use vstd::prelude::*;
use vstd::string::*;
use vstd::utf8::encode_utf8;
use crate::base64_text::{base64_decoded, base64_standard, is_b64_char, lemma_base64_roundtrip};
use crate::ident::{hyphenated_lower, random_uuid_bytes, uuid_string};
use crate::socks5::{host_port, host_port_text};
use crate::error::{CdnError, ErrorKind};
use crate::text::{decimal, digits_value, lemma_decimal_value, push_char};
use self::urlencoding::{encode, lemma_url_encoding_decodes, percent_decoded, url_encoded};

verus! {

/// VLESS user settings.
#[derive(Debug, Clone)]
pub struct VlessConfig {
    /// VLESS user UUID.
    pub uuid: String,
    /// Encryption level (none, auto).
    pub encryption: String,
    /// Enabled network (tcp, udp, both).
    pub network: String,
}

/// Listening settings of the VLESS server.
#[derive(Debug, Clone)]
pub struct ServerConfig {
    /// Bind address for the VLESS server.
    pub bind: String,
    /// Server port.
    pub port: u16,
    /// WebSocket path.
    pub ws_path: String,
}

/// Cloudflare tunnel settings.
#[derive(Debug, Clone)]
pub struct TunnelConfig {
    /// Whether the Cloudflare tunnel is started.
    pub enabled: bool,
    /// Local port the tunnel forwards to.
    pub local_port: u16,
    /// Public tunnel URL (filled in once a tunnel has run).
    pub tunnel_url: Option<String>,
}

/// Logging settings.
#[derive(Debug, Clone)]
pub struct LoggingConfig {
    pub level: String,
}

/// The whole configuration.
#[derive(Debug, Clone)]
pub struct Config {
    pub server: ServerConfig,
    pub vless: VlessConfig,
    pub tunnel: TunnelConfig,
    pub logging: LoggingConfig,
}

/// Default bind address: the server stays bound to localhost, and the
/// tunnel is the only way in from outside.
pub fn default_bind() -> (s: String)
    ensures
        s@ == "127.0.0.1"@,
{
    String::from_str("127.0.0.1")
}

/// Default server port (the port the tunnel forwards to).
pub fn default_port() -> (p: u16)
    ensures
        p == 8080,
{
    8080
}

/// Default WebSocket path.
pub fn default_ws_path() -> (s: String)
    ensures
        s@ == "/vless"@,
{
    String::from_str("/vless")
}

/// Default encryption level.
pub fn default_encryption() -> (s: String)
    ensures
        s@ == "none"@,
{
    String::from_str("none")
}

/// Default network.
pub fn default_network() -> (s: String)
    ensures
        s@ == "tcp"@,
{
    String::from_str("tcp")
}

/// Default log level.
pub fn default_log_level() -> (s: String)
    ensures
        s@ == "info"@,
{
    String::from_str("info")
}

impl Default for LoggingConfig {
    fn default() -> (c: Self)
        ensures
            c.level@ == "info"@,
    {
        LoggingConfig { level: default_log_level() }
    }
}

/// Whether `c` is a default configuration: the server on
/// `127.0.0.1:8080` with path `/vless`, a random (version 4) user UUID in
/// its hyphenated lower-case text, no encryption, TCP, the tunnel disabled
/// and forwarding to the server's port, and logging at `info`.
pub open spec fn is_default_config(c: Config) -> bool {
    &&& c.server.bind@ == "127.0.0.1"@
    &&& c.server.port == 8080
    &&& c.server.ws_path@ == "/vless"@
    &&& exists|b: Seq<u8>|
        b.len() == 16 && b[6] / 16 == 4 && b[8] / 64 == 2 && c.vless.uuid@ == hyphenated_lower(b)
    &&& c.vless.encryption@ == "none"@
    &&& c.vless.network@ == "tcp"@
    &&& !c.tunnel.enabled
    &&& c.tunnel.local_port == c.server.port
    &&& c.tunnel.tunnel_url is None
    &&& c.logging.level@ == "info"@
}

impl Default for Config {
    /// The default configuration, with a freshly generated random (version 4)
    /// user UUID in its hyphenated lower-case text form.
    fn default() -> (c: Self)
        ensures
            is_default_config(c),
    {
        let bytes = random_uuid_bytes();
        let uuid = uuid_string(bytes);
        Config {
            server: ServerConfig {
                bind: default_bind(),
                port: default_port(),
                ws_path: default_ws_path(),
            },
            vless: VlessConfig {
                uuid,
                encryption: default_encryption(),
                network: default_network(),
            },
            tunnel: TunnelConfig { enabled: false, local_port: default_port(), tunnel_url: None },
            logging: LoggingConfig { level: default_log_level() },
        }
    }
}

/// What reading the configuration file gave.
#[derive(Debug)]
pub enum ConfigSource {
    /// The file was read and its TOML parsed: the configuration, or the text
    /// of the parse error.
    Parsed(Result<Config, String>),
    /// There is no configuration file.
    Missing,
    /// The file exists but could not be read, with the text of the error.
    Unreadable(String),
}

impl Config {
    /// The configuration to run with, given what reading the file gave: the
    /// parsed configuration; the defaults when there is no file; a
    /// configuration error when the TOML does not parse; an I/O error when
    /// the file cannot be read.
    pub fn from_source(source: ConfigSource) -> (r: Result<Config, CdnError>)
        ensures
            match source {
                ConfigSource::Parsed(Ok(c)) => r matches Ok(x) && x == c,
                ConfigSource::Parsed(Err(t)) => r matches Err(e) && e@ == (ErrorKind::Config, t@),
                ConfigSource::Missing => r matches Ok(x) && is_default_config(x),
                ConfigSource::Unreadable(t) => r matches Err(e) && e@ == (ErrorKind::Io, t@),
            },
    {
        match source {
            ConfigSource::Parsed(Ok(c)) => Ok(c),
            ConfigSource::Parsed(Err(t)) => Err(CdnError::Config(t)),
            ConfigSource::Missing => Ok(Config::default()),
            ConfigSource::Unreadable(t) => Err(CdnError::Io(t)),
        }
    }
}

/// The host part of a share link: the tunnel URL if one is given, else
/// `bind:port`.
pub open spec fn link_host(c: Config, tunnel_url: Option<Seq<char>>) -> Seq<char> {
    match tunnel_url {
        Some(t) => t,
        None => host_port_text(c.server.bind@, c.server.port),
    }
}

/// The VLESS share link
/// `vless://<uuid>@<host>?encryption=<encryption>&type=ws&path=<encoded path>`.
pub open spec fn vless_link_text(c: Config, tunnel_url: Option<Seq<char>>) -> Seq<char> {
    "vless://"@ + c.vless.uuid@ + seq!['@'] + link_host(c, tunnel_url) + "?encryption="@
        + c.vless.encryption@ + "&type=ws&path="@ + url_encoded(c.server.ws_path@)
}

/// Without a tunnel URL the link points at the server's own address: it is
/// the same link as the one through `bind:port` (the server's bind address
/// and its own port), and in it the text between the `@` that ends the user
/// part and `?encryption=` is exactly that `bind:port`, whose digits read
/// back as the server's port.
pub proof fn lemma_link_without_tunnel(c: Config)
    ensures
        vless_link_text(c, None) == vless_link_text(
            c,
            Some(host_port_text(c.server.bind@, c.server.port)),
        ),
        ({
            let head = "vless://"@ + c.vless.uuid@ + seq!['@'];
            let hp = host_port_text(c.server.bind@, c.server.port);
            let link = vless_link_text(c, None);
            let k: int = head.len() + hp.len() as int;
            &&& link.subrange(0, head.len() as int) == head
            &&& link.subrange(head.len() as int, k) == hp
            &&& link.subrange(k, k + "?encryption="@.len() as int) == "?encryption="@
            &&& hp.subrange(0, c.server.bind@.len() as int) == c.server.bind@
            &&& hp[c.server.bind@.len() as int] == ':'
            &&& digits_value(hp.subrange(c.server.bind@.len() as int + 1, hp.len() as int))
                == c.server.port
        }),
{
    let head = "vless://"@ + c.vless.uuid@ + seq!['@'];
    let hp = host_port_text(c.server.bind@, c.server.port);
    let rest = "?encryption="@ + c.vless.encryption@ + "&type=ws&path="@ + url_encoded(
        c.server.ws_path@,
    );
    let link = vless_link_text(c, None);
    let k: int = head.len() + hp.len() as int;
    assert(link =~= head + hp + rest);
    assert(link.subrange(0, head.len() as int) =~= head);
    assert(link.subrange(head.len() as int, k) =~= hp);
    assert(link.subrange(k, k + "?encryption="@.len() as int) =~= "?encryption="@);
    let b = c.server.bind@;
    assert(hp.subrange(0, b.len() as int) =~= b);
    assert(hp.subrange(b.len() as int + 1, hp.len() as int) =~= decimal(c.server.port as nat));
    lemma_decimal_value(c.server.port as nat);
}

/// Through a tunnel the link points at the tunnel URL as given: after
/// `vless://`, the user UUID and `@` comes that URL, then `?encryption=`
/// and the configured encryption.
pub proof fn lemma_link_through_tunnel(c: Config, t: Seq<char>)
    ensures
        ({
            let head = "vless://"@ + c.vless.uuid@ + seq!['@'];
            let link = vless_link_text(c, Some(t));
            let k: int = head.len() + t.len() as int;
            let q = "?encryption="@ + c.vless.encryption@;
            &&& link.subrange(0, head.len() as int) == head
            &&& link.subrange(head.len() as int, k) == t
            &&& link.subrange(k, k + q.len() as int) == q
        }),
{
    let head = "vless://"@ + c.vless.uuid@ + seq!['@'];
    let q = "?encryption="@ + c.vless.encryption@;
    let tail = "&type=ws&path="@ + url_encoded(c.server.ws_path@);
    let link = vless_link_text(c, Some(t));
    let k: int = head.len() + t.len() as int;
    assert(link =~= head + t + q + tail);
    assert(link.subrange(0, head.len() as int) =~= head);
    assert(link.subrange(head.len() as int, k) =~= t);
    assert(link.subrange(k, k + q.len() as int) =~= q);
}

/// Every share link ends with `&type=ws&path=` and the URL encoding of the
/// WebSocket path, which percent-decodes back to the path's UTF-8 bytes.
pub proof fn lemma_link_path(c: Config, tunnel_url: Option<Seq<char>>)
    ensures
        ({
            let link = vless_link_text(c, tunnel_url);
            let m = "&type=ws&path="@;
            let e = url_encoded(c.server.ws_path@);
            let j: int = link.len() - e.len();
            &&& link.len() >= m.len() + e.len()
            &&& link.subrange(j - m.len(), j) == m
            &&& percent_decoded(link.subrange(j, link.len() as int)) == encode_utf8(
                c.server.ws_path@,
            )
        }),
{
    let m = "&type=ws&path="@;
    let e = url_encoded(c.server.ws_path@);
    let front = "vless://"@ + c.vless.uuid@ + seq!['@'] + link_host(c, tunnel_url)
        + "?encryption="@ + c.vless.encryption@;
    let link = vless_link_text(c, tunnel_url);
    let j: int = link.len() - e.len();
    assert(link =~= front + m + e);
    assert(link.subrange(j - m.len(), j) =~= m);
    assert(link.subrange(j, link.len() as int) =~= e);
    lemma_url_encoding_decodes(c.server.ws_path@, c.server.ws_path@);
}

/// The share link depends on the server and user settings only: two
/// configurations that agree on the bind address, the server port, the
/// WebSocket path, the user UUID and the encryption give the same link for
/// the same tunnel URL (or for none), whatever their tunnel settings,
/// network or log level.
pub proof fn lemma_link_ignores_tunnel_settings(
    c1: Config,
    c2: Config,
    tunnel_url: Option<Seq<char>>,
)
    requires
        c1.server.bind@ == c2.server.bind@,
        c1.server.port == c2.server.port,
        c1.server.ws_path@ == c2.server.ws_path@,
        c1.vless.uuid@ == c2.vless.uuid@,
        c1.vless.encryption@ == c2.vless.encryption@,
    ensures
        vless_link_text(c1, tunnel_url) == vless_link_text(c2, tunnel_url),
{
}

/// The view of an optional text.
pub open spec fn opt_text(t: Option<&str>) -> Option<Seq<char>> {
    match t {
        Some(s) => Some(s@),
        None => None,
    }
}

/// `base64::encode`: the standard, padded base64 text of the bytes (the
/// crate's `STANDARD` engine).
#[verifier::external_body]
fn base64_encode(data: &[u8]) -> (r: String)
    ensures
        r@ == base64_standard(data@),
{
    #[allow(deprecated)]
    base64::encode(data)
}

impl Config {
    /// The VLESS share link for this configuration, through the tunnel URL
    /// if one is given.
    pub fn vless_link(&self, tunnel_url: Option<&str>) -> (r: String)
        ensures
            r@ == vless_link_text(*self, opt_text(tunnel_url)),
    {
        let mut r = String::from_str("vless://");
        r.append(self.vless.uuid.as_str());
        push_char(&mut r, '@');
        match tunnel_url {
            Some(t) => r.append(t),
            None => {
                let hp = host_port(self.server.bind.as_str(), self.server.port);
                r.append(hp.as_str());
            },
        }
        r.append("?encryption=");
        r.append(self.vless.encryption.as_str());
        r.append("&type=ws&path=");
        let path = encode(self.server.ws_path.as_str());
        r.append(path.as_str());
        r
    }

    /// The VMSS subscription: the base64 text of the share link followed by
    /// a newline. It decodes back to that line's UTF-8 bytes and uses only
    /// the base64 alphabet and `=`.
    pub fn vmss_subscription(&self, tunnel_url: Option<&str>) -> (r: String)
        ensures
            r@ == base64_standard(encode_utf8(vless_link_text(*self, opt_text(tunnel_url)).push('\n'))),
            base64_decoded(r@) == encode_utf8(vless_link_text(*self, opt_text(tunnel_url)).push('\n')),
            forall|i: int| 0 <= i < r@.len() ==> is_b64_char(#[trigger] r@[i]) || r@[i] == '=',
    {
        let mut link = self.vless_link(tunnel_url);
        push_char(&mut link, '\n');
        let r = base64_encode(link.as_str().as_bytes());
        proof {
            lemma_base64_roundtrip(encode_utf8(link@));
        }
        r
    }
}

} // verus!
