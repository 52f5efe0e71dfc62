//! The library's error type.

use vstd::prelude::*;
use vstd::string::*;

verus! {

/// What kind of failure a [`CdnError`] reports.
#[derive(Debug, Clone, Copy, PartialEq, Eq, Structural)]
pub enum ErrorKind {
    WebSocket,
    Io,
    Config,
    VlessProtocol,
    Socks5,
    Tunnel,
    Connection,
    Timeout,
    InvalidUuid,
    Encoding,
}

/// Errors of the proxy. Each variant carries its human-readable message;
/// failures that come from the transport (WebSocket, I/O) carry the text of
/// the underlying error.
#[derive(Debug, Clone)]
pub enum CdnError {
    WebSocket(String),
    Io(String),
    Config(String),
    VlessProtocol(String),
    Socks5(String),
    Tunnel(String),
    Connection(String),
    Timeout(String),
    InvalidUuid(String),
    Encoding(String),
}

impl CdnError {
    /// The kind of the error.
    pub open spec fn kind(&self) -> ErrorKind {
        match self {
            CdnError::WebSocket(_) => ErrorKind::WebSocket,
            CdnError::Io(_) => ErrorKind::Io,
            CdnError::Config(_) => ErrorKind::Config,
            CdnError::VlessProtocol(_) => ErrorKind::VlessProtocol,
            CdnError::Socks5(_) => ErrorKind::Socks5,
            CdnError::Tunnel(_) => ErrorKind::Tunnel,
            CdnError::Connection(_) => ErrorKind::Connection,
            CdnError::Timeout(_) => ErrorKind::Timeout,
            CdnError::InvalidUuid(_) => ErrorKind::InvalidUuid,
            CdnError::Encoding(_) => ErrorKind::Encoding,
        }
    }

    /// The message the error carries.
    pub open spec fn message(&self) -> Seq<char> {
        match self {
            CdnError::WebSocket(m) => m@,
            CdnError::Io(m) => m@,
            CdnError::Config(m) => m@,
            CdnError::VlessProtocol(m) => m@,
            CdnError::Socks5(m) => m@,
            CdnError::Tunnel(m) => m@,
            CdnError::Connection(m) => m@,
            CdnError::Timeout(m) => m@,
            CdnError::InvalidUuid(m) => m@,
            CdnError::Encoding(m) => m@,
        }
    }
}

/// The heading the report of an error of each kind starts with.
pub open spec fn kind_heading(k: ErrorKind) -> Seq<char> {
    match k {
        ErrorKind::WebSocket => "WebSocket error: "@,
        ErrorKind::Io => "IO error: "@,
        ErrorKind::Config => "Configuration error: "@,
        ErrorKind::VlessProtocol => "VLESS protocol error: "@,
        ErrorKind::Socks5 => "SOCKS5 error: "@,
        ErrorKind::Tunnel => "Tunnel error: "@,
        ErrorKind::Connection => "Connection error: "@,
        ErrorKind::Timeout => "Timeout: "@,
        ErrorKind::InvalidUuid => "Invalid UUID: "@,
        ErrorKind::Encoding => "Encoding error: "@,
    }
}

impl CdnError {
    /// The human-readable report of the error: the heading of its kind
    /// followed by its message, e.g. `"VLESS protocol error: UUID mismatch"`.
    pub fn to_string(&self) -> (r: String)
        ensures
            r@ == kind_heading(self.kind()) + self.message(),
    {
        let (mut r, m) = match self {
            CdnError::WebSocket(m) => (String::from_str("WebSocket error: "), m),
            CdnError::Io(m) => (String::from_str("IO error: "), m),
            CdnError::Config(m) => (String::from_str("Configuration error: "), m),
            CdnError::VlessProtocol(m) => (String::from_str("VLESS protocol error: "), m),
            CdnError::Socks5(m) => (String::from_str("SOCKS5 error: "), m),
            CdnError::Tunnel(m) => (String::from_str("Tunnel error: "), m),
            CdnError::Connection(m) => (String::from_str("Connection error: "), m),
            CdnError::Timeout(m) => (String::from_str("Timeout: "), m),
            CdnError::InvalidUuid(m) => (String::from_str("Invalid UUID: "), m),
            CdnError::Encoding(m) => (String::from_str("Encoding error: "), m),
        };
        r.append(m.as_str());
        r
    }
}

impl View for CdnError {
    type V = (ErrorKind, Seq<char>);

    open spec fn view(&self) -> (ErrorKind, Seq<char>) {
        (self.kind(), self.message())
    }
}

/// Result type of the library.
pub type Result<T> = core::result::Result<T, CdnError>;

} // verus!
