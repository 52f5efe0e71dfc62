//! The outbound side of a session: the destination address text, the
//! connection summary used in logs, and the relay decision taken on each
//! read from either side.

use vstd::prelude::*;
use vstd::string::*;
use crate::error::CdnError;
use crate::text::{decimal, push_char, push_decimal};
use crate::vless::Command;

verus! {

/// `host:port` text.
pub open spec fn host_port_text(host: Seq<char>, port: u16) -> Seq<char> {
    host + seq![':'] + decimal(port as nat)
}

/// The `host:port` text that a TCP connection or a listener is given.
pub fn host_port(host: &str, port: u16) -> (r: String)
    ensures
        r@ == host_port_text(host@, port),
{
    let mut r = String::from_str(host);
    push_char(&mut r, ':');
    push_decimal(&mut r, port as u64);
    r
}

/// The name of a command in connection summaries.
pub open spec fn command_name(command: Command) -> Seq<char> {
    match command {
        Command::TCP => "TCP"@,
        Command::UDP => "UDP"@,
    }
}

/// Format connection info for logging: `"<TCP|UDP> to <address>:<port>"`.
pub fn format_connection(command: Command, address: &str, port: u16) -> (r: String)
    ensures
        r@ == command_name(command) + " to "@ + host_port_text(address@, port),
{
    let mut r = match command {
        Command::TCP => String::from_str("TCP"),
        Command::UDP => String::from_str("UDP"),
    };
    r.append(" to ");
    let hp = host_port(address, port);
    r.append(hp.as_str());
    r
}

/// What the relay does after a read from one side of the connection.
#[derive(Debug, Clone, Copy, PartialEq, Eq, Structural)]
pub enum RelayAction {
    /// Write the first `n` bytes read to the other side.
    Forward(usize),
    /// That side is closed: stop relaying.
    Finish,
}

/// The relay's decision on the outcome of a read: end of stream stops the
/// relay, data is forwarded, and a read error ends it with that error.
pub fn relay_step(read: Result<usize, CdnError>) -> (r: Result<RelayAction, CdnError>)
    ensures
        match read {
            Ok(n) => if n == 0 {
                r == Ok::<RelayAction, CdnError>(RelayAction::Finish)
            } else {
                r == Ok::<RelayAction, CdnError>(RelayAction::Forward(n))
            },
            Err(e) => r matches Err(e2) && e2@ == e@,
        },
{
    match read {
        Ok(0) => Ok(RelayAction::Finish),
        Ok(n) => Ok(RelayAction::Forward(n)),
        Err(e) => Err(e),
    }
}

} // verus!
