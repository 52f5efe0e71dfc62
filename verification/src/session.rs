//! The decisions a VLESS-over-WebSocket session takes. The server reads
//! WebSocket messages and destination data and hands each event here; it
//! carries out the action that comes back.
//!
//! A session first gathers binary messages until they hold a complete VLESS
//! header, then checks the user's UUID, then relays data both ways.

use vstd::prelude::*;
use vstd::string::*;
use crate::config::Config;
use crate::error::{CdnError, ErrorKind};
use crate::ident::{hyphenated_lower, is_uuid_text_of, uuid_parse};
use crate::socks5::{command_name, format_connection, host_port_text};
use crate::vless::{header_spec, validate_uuid, VlessRequest};

verus! {

/// The most header bytes a client may send before its header is complete.
pub const MAX_HEADER_BYTES: usize = 1024;

/// A WebSocket event, as the session sees it.
#[derive(Debug, Clone)]
pub enum WsEvent {
    /// A binary message with its payload.
    Binary(Vec<u8>),
    /// A close frame.
    Close,
    /// A text, ping, pong or raw frame.
    Other,
    /// The WebSocket failed, with the text of the error.
    Error(String),
    /// The message stream ended.
    End,
}

/// Where the header phase stands after a message.
#[derive(Debug)]
pub enum HandshakeStep {
    /// The header is not complete yet: read another message.
    Pending,
    /// The header is complete; the buffer now holds the bytes that followed
    /// it in the same messages.
    Ready(VlessRequest),
    /// The client closed the connection: the session ends without error.
    Closed,
}

/// Handles one WebSocket message of the header phase. `buf` holds the
/// payload bytes received so far.
pub fn on_handshake_message(buf: &mut Vec<u8>, event: WsEvent) -> (r: Result<
    HandshakeStep,
    CdnError,
>)
    ensures
        match event {
            WsEvent::Binary(data) => {
                let all = old(buf)@ + data@;
                match header_spec(all) {
                    Ok((req, n)) => r matches Ok(HandshakeStep::Ready(x)) && x@ == req
                        && final(buf)@ == all.subrange(n, all.len() as int),
                    Err(_) => if all.len() > MAX_HEADER_BYTES {
                        r matches Err(e) && e@ == (ErrorKind::VlessProtocol, "Header too large"@)
                    } else {
                        r matches Ok(HandshakeStep::Pending) && final(buf)@ == all
                    },
                }
            },
            WsEvent::Close => r matches Ok(HandshakeStep::Closed),
            WsEvent::Other => r matches Err(e) && e@ == (
                ErrorKind::VlessProtocol,
                "Expected binary message"@,
            ),
            WsEvent::Error(t) => r matches Err(e) && e@ == (ErrorKind::WebSocket, t@),
            WsEvent::End => r matches Err(e) && e@ == (
                ErrorKind::VlessProtocol,
                "Unexpected end of stream"@,
            ),
        },
{
    match event {
        WsEvent::Binary(data) => {
            let mut i: usize = 0;
            let ghost start = buf@;
            while i < data.len()
                invariant
                    i <= data@.len(),
                    buf@ == start + data@.subrange(0, i as int),
                decreases data@.len() - i,
            {
                buf.push(data[i]);
                i = i + 1;
                assert(buf@ =~= start + data@.subrange(0, i as int));
            }
            assert(data@.subrange(0, data@.len() as int) =~= data@);
            match VlessRequest::parse(buf.clone()) {
                Ok((req, rest)) => {
                    *buf = rest;
                    Ok(HandshakeStep::Ready(req))
                },
                Err(_) => {
                    if buf.len() > MAX_HEADER_BYTES {
                        Err(CdnError::VlessProtocol(String::from_str("Header too large")))
                    } else {
                        Ok(HandshakeStep::Pending)
                    }
                },
            }
        },
        WsEvent::Close => Ok(HandshakeStep::Closed),
        WsEvent::Other => Err(CdnError::VlessProtocol(String::from_str("Expected binary message"))),
        WsEvent::Error(t) => Err(CdnError::WebSocket(t)),
        WsEvent::End => Err(CdnError::VlessProtocol(String::from_str("Unexpected end of stream"))),
    }
}

/// Admits a parsed request: its UUID must be the configured one. Returns the
/// connection summary for the log.
pub fn authorize(req: &VlessRequest, config: &Config) -> (r: Result<String, CdnError>)
    ensures
        match uuid_parse(config.vless.uuid@) {
            Ok(b) => if b == req.uuid@ {
                r matches Ok(s) && s@ == command_name(req.command) + " to "@ + host_port_text(
                    req.address@,
                    req.port,
                )
            } else {
                r matches Err(e) && e@ == (ErrorKind::VlessProtocol, "UUID mismatch"@)
            },
            Err(t) => r matches Err(e) && e@ == (
                ErrorKind::VlessProtocol,
                "Invalid configured UUID: "@ + t,
            ),
        },
        is_uuid_text_of(config.vless.uuid@, req.uuid@) ==> r is Ok,
        config.vless.uuid@ == hyphenated_lower(req.uuid@) ==> r is Ok,
{
    match validate_uuid(&req.uuid, config.vless.uuid.as_str()) {
        Ok(()) => Ok(format_connection(req.command, req.address.as_str(), req.port)),
        Err(e) => Err(e),
    }
}

/// An event of the relay phase.
#[derive(Debug)]
pub enum RelayEvent {
    /// A WebSocket event from the client.
    Client(WsEvent),
    /// The outcome of a read from the destination: the number of bytes read,
    /// or the text of the read error.
    Destination(Result<usize, String>),
}

/// What the server does next in the relay phase.
#[derive(Debug)]
pub enum SessionAction {
    /// Write these bytes to the destination.
    WriteDestination(Vec<u8>),
    /// Send the first `n` bytes read from the destination to the client as a
    /// binary message.
    SendClient(usize),
    /// Nothing to do for this event.
    Ignore,
    /// The session is over.
    Finish,
}

/// The relay phase's decision on one event: client data goes to the
/// destination and destination data to the client; a close, the end of
/// either stream, or a failed read from the destination ends the session;
/// other client frames are ignored; a WebSocket failure ends it with an
/// error.
pub fn on_relay_event(event: RelayEvent) -> (r: Result<SessionAction, CdnError>)
    ensures
        match event {
            RelayEvent::Client(WsEvent::Binary(data)) => r matches Ok(
                SessionAction::WriteDestination(d),
            ) && d@ == data@,
            RelayEvent::Client(WsEvent::Close) => r matches Ok(SessionAction::Finish),
            RelayEvent::Client(WsEvent::Other) => r matches Ok(SessionAction::Ignore),
            RelayEvent::Client(WsEvent::Error(t)) => r matches Err(e) && e@ == (
                ErrorKind::WebSocket,
                t@,
            ),
            RelayEvent::Client(WsEvent::End) => r matches Ok(SessionAction::Finish),
            RelayEvent::Destination(Ok(n)) => if n == 0 {
                r matches Ok(SessionAction::Finish)
            } else {
                r matches Ok(SessionAction::SendClient(m)) && m == n
            },
            RelayEvent::Destination(Err(_)) => r matches Ok(SessionAction::Finish),
        },
{
    match event {
        RelayEvent::Client(WsEvent::Binary(data)) => Ok(SessionAction::WriteDestination(data)),
        RelayEvent::Client(WsEvent::Close) => Ok(SessionAction::Finish),
        RelayEvent::Client(WsEvent::Other) => Ok(SessionAction::Ignore),
        RelayEvent::Client(WsEvent::Error(t)) => Err(CdnError::WebSocket(t)),
        RelayEvent::Client(WsEvent::End) => Ok(SessionAction::Finish),
        RelayEvent::Destination(Ok(n)) => if n == 0 {
            Ok(SessionAction::Finish)
        } else {
            Ok(SessionAction::SendClient(n))
        },
        RelayEvent::Destination(Err(_)) => Ok(SessionAction::Finish),
    }
}

/// Where a session stands.
#[derive(Debug)]
pub enum SessionPhase {
    /// Gathering the VLESS header; the bytes received so far.
    Header(Vec<u8>),
    /// Relaying for the admitted user with this UUID.
    Relay([u8; 16]),
    /// The session is over.
    Closed,
}

/// An event of a session.
#[derive(Debug)]
pub enum SessionEvent {
    /// A WebSocket event from the client.
    Client(WsEvent),
    /// The outcome of a read from the destination: the number of bytes read,
    /// or the text of the read error.
    Destination(Result<usize, String>),
}

/// What the server does after a session event.
#[derive(Debug)]
pub enum SessionStep {
    /// Wait for the next event.
    Continue,
    /// The request is admitted: connect to its address and port, write the
    /// pending bytes that followed the header, and log the summary.
    Connect(VlessRequest, Vec<u8>, String),
    /// A relay-phase action.
    Relay(SessionAction),
}

/// Whether a phase only relays for a user that the configuration admits.
pub open spec fn admitted(phase: SessionPhase, config: Config) -> bool {
    match phase {
        SessionPhase::Relay(u) => uuid_parse(config.vless.uuid@) == Ok::<Seq<u8>, Seq<char>>(u@),
        _ => true,
    }
}

/// Whether the step reaches the destination: a connection or a write.
pub open spec fn reaches_destination(r: Result<SessionStep, CdnError>) -> bool {
    ||| r matches Ok(SessionStep::Connect(_, _, _))
    ||| r matches Ok(SessionStep::Relay(SessionAction::WriteDestination(_)))
}

impl SessionPhase {
    /// A new session, waiting for the header.
    pub fn new() -> (p: SessionPhase)
        ensures
            p matches SessionPhase::Header(b) && b@.len() == 0,
            forall|c: Config| admitted(p, c),
    {
        SessionPhase::Header(Vec::new())
    }
}

/// Takes one session event and returns the server's next step.
///
/// In the header phase client messages are gathered until they hold a
/// complete header; the request is then admitted only if the configured
/// UUID is the request's, and only then does the session connect and move
/// to the relay phase. Destination events before that are ignored. In the
/// relay phase events are handled as [`on_relay_event`] says. An error, a
/// close and the end of the relay all end the session.
///
/// Nothing reaches the destination, by a connection or by a write, unless
/// the session relays for a user whose UUID the configuration holds: a
/// session starts admitted ([`SessionPhase::new`]) and every step keeps it
/// so.
pub fn session_step(phase: &mut SessionPhase, config: &Config, event: SessionEvent) -> (r: Result<
    SessionStep,
    CdnError,
>)
    ensures
        admitted(*old(phase), *config) ==> admitted(*final(phase), *config),
        admitted(*old(phase), *config) ==> reaches_destination(r) ==> (*final(phase) matches SessionPhase::Relay(u)
            && uuid_parse(config.vless.uuid@) == Ok::<Seq<u8>, Seq<char>>(u@)),
        r matches Ok(SessionStep::Relay(SessionAction::WriteDestination(_))) ==> *old(phase) is Relay,
        r is Err ==> *final(phase) is Closed,
        match (*old(phase), event) {
            (SessionPhase::Header(buf), SessionEvent::Client(WsEvent::Binary(data))) => {
                let all = buf@ + data@;
                match header_spec(all) {
                    Ok((req, n)) => match uuid_parse(config.vless.uuid@) {
                        Ok(b) => if b == req.uuid {
                            r matches Ok(SessionStep::Connect(x, pending, summary)) && x@ == req
                                && pending@ == all.subrange(n, all.len() as int) && summary@
                                == command_name(req.command) + " to "@ + host_port_text(
                                req.address,
                                req.port,
                            ) && (*final(phase) matches SessionPhase::Relay(u) && u@ == req.uuid)
                        } else {
                            r matches Err(e) && e@ == (ErrorKind::VlessProtocol, "UUID mismatch"@)
                        },
                        Err(t) => r matches Err(e) && e@ == (
                            ErrorKind::VlessProtocol,
                            "Invalid configured UUID: "@ + t,
                        ),
                    },
                    Err(_) => if all.len() > MAX_HEADER_BYTES {
                        r matches Err(e) && e@ == (ErrorKind::VlessProtocol, "Header too large"@)
                    } else {
                        r matches Ok(SessionStep::Continue) && (*final(phase) matches SessionPhase::Header(
                            b2,
                        ) && b2@ == all)
                    },
                }
            },
            (SessionPhase::Header(_), SessionEvent::Client(WsEvent::Close)) => r matches Ok(
                SessionStep::Relay(SessionAction::Finish),
            ) && *final(phase) is Closed,
            (SessionPhase::Header(_), SessionEvent::Client(WsEvent::Other)) => r matches Err(e)
                && e@ == (ErrorKind::VlessProtocol, "Expected binary message"@),
            (SessionPhase::Header(_), SessionEvent::Client(WsEvent::Error(t))) => r matches Err(e)
                && e@ == (ErrorKind::WebSocket, t@),
            (SessionPhase::Header(_), SessionEvent::Client(WsEvent::End)) => r matches Err(e) && e@
                == (ErrorKind::VlessProtocol, "Unexpected end of stream"@),
            (SessionPhase::Header(_), SessionEvent::Destination(_)) => r matches Ok(
                SessionStep::Relay(SessionAction::Ignore),
            ) && *final(phase) == *old(phase),
            (SessionPhase::Relay(u), SessionEvent::Client(WsEvent::Binary(data))) => r matches Ok(
                SessionStep::Relay(SessionAction::WriteDestination(d)),
            ) && d@ == data@ && *final(phase) == *old(phase),
            (SessionPhase::Relay(_), SessionEvent::Client(WsEvent::Close)) => r matches Ok(
                SessionStep::Relay(SessionAction::Finish),
            ) && *final(phase) is Closed,
            (SessionPhase::Relay(_), SessionEvent::Client(WsEvent::Other)) => r matches Ok(
                SessionStep::Relay(SessionAction::Ignore),
            ) && *final(phase) == *old(phase),
            (SessionPhase::Relay(_), SessionEvent::Client(WsEvent::Error(t))) => r matches Err(e)
                && e@ == (ErrorKind::WebSocket, t@),
            (SessionPhase::Relay(_), SessionEvent::Client(WsEvent::End)) => r matches Ok(
                SessionStep::Relay(SessionAction::Finish),
            ) && *final(phase) is Closed,
            (SessionPhase::Relay(_), SessionEvent::Destination(Ok(n))) => if n == 0 {
                r matches Ok(SessionStep::Relay(SessionAction::Finish)) && *final(phase) is Closed
            } else {
                r matches Ok(SessionStep::Relay(SessionAction::SendClient(m))) && m == n
                    && *final(phase) == *old(phase)
            },
            (SessionPhase::Relay(_), SessionEvent::Destination(Err(_))) => r matches Ok(
                SessionStep::Relay(SessionAction::Finish),
            ) && *final(phase) is Closed,
            (SessionPhase::Closed, _) => r matches Ok(SessionStep::Relay(SessionAction::Finish))
                && *final(phase) is Closed,
        },
{
    let mut current = SessionPhase::Closed;
    core::mem::swap(&mut current, phase);
    match current {
        SessionPhase::Header(mut buf) => match event {
            SessionEvent::Client(ws) => match on_handshake_message(&mut buf, ws) {
                Ok(HandshakeStep::Pending) => {
                    *phase = SessionPhase::Header(buf);
                    Ok(SessionStep::Continue)
                },
                Ok(HandshakeStep::Closed) => Ok(SessionStep::Relay(SessionAction::Finish)),
                Ok(HandshakeStep::Ready(req)) => match authorize(&req, config) {
                    Ok(summary) => {
                        *phase = SessionPhase::Relay(req.uuid);
                        Ok(SessionStep::Connect(req, buf, summary))
                    },
                    Err(e) => Err(e),
                },
                Err(e) => Err(e),
            },
            SessionEvent::Destination(_) => {
                *phase = SessionPhase::Header(buf);
                Ok(SessionStep::Relay(SessionAction::Ignore))
            },
        },
        SessionPhase::Relay(u) => {
            let relay_event = match event {
                SessionEvent::Client(ws) => RelayEvent::Client(ws),
                SessionEvent::Destination(d) => RelayEvent::Destination(d),
            };
            match on_relay_event(relay_event) {
                Ok(SessionAction::Finish) => Ok(SessionStep::Relay(SessionAction::Finish)),
                Ok(action) => {
                    *phase = SessionPhase::Relay(u);
                    Ok(SessionStep::Relay(action))
                },
                Err(e) => Err(e),
            }
        },
        SessionPhase::Closed => Ok(SessionStep::Relay(SessionAction::Finish)),
    }
}

} // verus!
