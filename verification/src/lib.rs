//! Core logic of a VLESS-over-WebSocket proxy that is published through a
//! Cloudflare tunnel: the VLESS request header parser, the user check, the
//! client configuration and its share links, and the decisions the server
//! and the tunnel supervisor take on each event. The network, process and
//! file work is left to the caller.

pub mod base64_text;
pub mod config;
pub mod error;
pub mod ident;
pub mod session;
pub mod socks5;
pub mod text;
pub mod tunnel;
pub mod vless;

pub use config::Config;
pub use error::{CdnError, ErrorKind, Result};
pub use tunnel::TunnelManager;
pub use vless::{Command, VlessRequest};
