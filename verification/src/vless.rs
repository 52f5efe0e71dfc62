//! The VLESS request header: its commands, address types, and the parser
//! that reads a request out of the first bytes a client sends.
//!
//! Wire format: `[1 byte version] [16 bytes UUID] [1 byte command]
//! [1 byte address type] [address] [2 bytes port, big-endian]`.

use vstd::prelude::*;
use vstd::string::*;
use vstd::utf8::{decode_utf8, valid_utf8};
use crate::error::{CdnError, ErrorKind};
use crate::ident::{
    hyphenated_lower, is_uuid_text_of, lemma_hex_digits_injective, lemma_hyphenated_is_uuid_text,
    parse_uuid, uuid_parse,
};
use crate::text::{decimal, push_char, push_decimal};

verus! {

/// VLESS command types.
#[derive(Debug, Clone, Copy, PartialEq, Eq, Structural)]
pub enum Command {
    TCP,
    UDP,
}

/// The command that a command byte names, if any (`1` is TCP, `2` is UDP).
pub open spec fn command_of(value: u8) -> Option<Command> {
    if value == 1 {
        Some(Command::TCP)
    } else if value == 2 {
        Some(Command::UDP)
    } else {
        None
    }
}

impl TryFrom<u8> for Command {
    type Error = CdnError;

    /// Reads a command byte.
    fn try_from(value: u8) -> (r: Result<Command, CdnError>)
        ensures
            match command_of(value) {
                Some(c) => r == Ok::<Command, CdnError>(c),
                None => r matches Err(e) && e@ == (
                    ErrorKind::VlessProtocol,
                    "Unknown command: "@ + decimal(value as nat),
                ),
            },
    {
        if value == 1 {
            Ok(Command::TCP)
        } else if value == 2 {
            Ok(Command::UDP)
        } else {
            let mut m = String::from_str("Unknown command: ");
            push_decimal(&mut m, value as u64);
            Err(CdnError::VlessProtocol(m))
        }
    }
}

impl vstd::std_specs::convert::TryFromSpecImpl<u8> for Command {
    /// The result is stated by the `try_from` contract itself, not through
    /// a spec value: the error message is a `String`.
    open spec fn obeys_try_from_spec() -> bool {
        false
    }

    open spec fn try_from_spec(v: u8) -> Result<Command, CdnError> {
        match command_of(v) {
            Some(c) => Ok(c),
            None => Err(CdnError::VlessProtocol(arbitrary())),
        }
    }
}

/// Address type for the VLESS protocol.
#[derive(Debug, Clone, Copy, PartialEq, Eq, Structural)]
pub enum AddressType {
    IPv4,
    IPv6,
    DomainName,
}

/// The address type that an address-type byte names, if any
/// (`1` is IPv4, `2` is a domain name, `3` is IPv6).
pub open spec fn address_type_of(value: u8) -> Option<AddressType> {
    if value == 1 {
        Some(AddressType::IPv4)
    } else if value == 2 {
        Some(AddressType::DomainName)
    } else if value == 3 {
        Some(AddressType::IPv6)
    } else {
        None
    }
}

impl TryFrom<u8> for AddressType {
    type Error = CdnError;

    /// Reads an address-type byte.
    fn try_from(value: u8) -> (r: Result<AddressType, CdnError>)
        ensures
            match address_type_of(value) {
                Some(t) => r == Ok::<AddressType, CdnError>(t),
                None => r matches Err(e) && e@ == (
                    ErrorKind::VlessProtocol,
                    "Unknown address type: "@ + decimal(value as nat),
                ),
            },
    {
        if value == 1 {
            Ok(AddressType::IPv4)
        } else if value == 2 {
            Ok(AddressType::DomainName)
        } else if value == 3 {
            Ok(AddressType::IPv6)
        } else {
            let mut m = String::from_str("Unknown address type: ");
            push_decimal(&mut m, value as u64);
            Err(CdnError::VlessProtocol(m))
        }
    }
}

impl vstd::std_specs::convert::TryFromSpecImpl<u8> for AddressType {
    /// The result is stated by the `try_from` contract itself, not through
    /// a spec value: the error message is a `String`.
    open spec fn obeys_try_from_spec() -> bool {
        false
    }

    open spec fn try_from_spec(v: u8) -> Result<AddressType, CdnError> {
        match address_type_of(v) {
            Some(t) => Ok(t),
            None => Err(CdnError::VlessProtocol(arbitrary())),
        }
    }
}

/// Why a byte string is not a complete, well-formed VLESS request header.
#[derive(Debug, Clone, Copy, PartialEq, Eq, Structural)]
pub enum HeaderError {
    IncompleteHeader,
    UnknownCommand(u8),
    UnknownAddressType(u8),
    IncompleteIpv4,
    IncompleteIpv6,
    IncompleteDomain,
    IncompleteDomainData,
    InvalidDomain,
    IncompletePort,
}

/// The message that the parser reports for a header error in the bytes
/// `b`; for an invalid domain it holds the UTF-8 decoder's description of
/// the fault in the domain bytes.
pub open spec fn header_error_message(f: HeaderError, b: Seq<u8>) -> Seq<char> {
    match f {
        HeaderError::IncompleteHeader => "Incomplete header"@,
        HeaderError::UnknownCommand(v) => "Unknown command: "@ + decimal(v as nat),
        HeaderError::UnknownAddressType(v) => "Unknown address type: "@ + decimal(v as nat),
        HeaderError::IncompleteIpv4 => "Incomplete IPv4 address"@,
        HeaderError::IncompleteIpv6 => "Incomplete IPv6 address"@,
        HeaderError::IncompleteDomain => "Incomplete domain name"@,
        HeaderError::IncompleteDomainData => "Incomplete domain name data"@,
        HeaderError::InvalidDomain => "Invalid domain: "@ + utf8_error_text(
            b.subrange(20, 20 + b[19]),
        ),
        HeaderError::IncompletePort => "Incomplete port"@,
    }
}

/// Whether `e` is the error the parser reports for `f` in the bytes `b`.
pub open spec fn reports(e: CdnError, f: HeaderError, b: Seq<u8>) -> bool {
    e@ == (ErrorKind::VlessProtocol, header_error_message(f, b))
}

/// Dotted-quad rendering of four bytes: `"a.b.c.d"`.
pub open spec fn ipv4_text(a: Seq<u8>) -> Seq<char> {
    decimal(a[0] as nat) + seq!['.'] + decimal(a[1] as nat) + seq!['.'] + decimal(a[2] as nat)
        + seq!['.'] + decimal(a[3] as nat)
}

/// How one byte is written inside a `b"..."` byte-string rendering.
pub open spec fn escaped_byte(b: u8) -> Seq<char> {
    if b == 10 {
        seq!['\\', 'n']
    } else if b == 13 {
        seq!['\\', 'r']
    } else if b == 9 {
        seq!['\\', 't']
    } else if b == 92 || b == 34 {
        seq!['\\', b as char]
    } else if b == 0 {
        seq!['\\', '0']
    } else if 0x20 <= b < 0x7f {
        seq![b as char]
    } else {
        seq!['\\', 'x', crate::text::hex_lower((b / 16) as nat), crate::text::hex_lower((b % 16) as nat)]
    }
}

/// The escaped bodies of all bytes of `s`, in order.
pub open spec fn escaped_bytes(s: Seq<u8>) -> Seq<char>
    decreases s.len(),
{
    if s.len() == 0 {
        Seq::empty()
    } else {
        escaped_bytes(s.drop_last()) + escaped_byte(s.last())
    }
}

/// The byte-string rendering `b"..."` of `s`: printable ASCII as itself,
/// the usual escapes for newline, carriage return, tab, backslash, quote and
/// NUL, and `\xNN` (lower-case hex) for every other byte.
pub open spec fn byte_string_text(s: Seq<u8>) -> Seq<char> {
    seq!['b', '"'] + escaped_bytes(s) + seq!['"']
}

/// The address that follows the address-type byte at offset 19, and the
/// offset just past it.
pub open spec fn address_spec(t: AddressType, b: Seq<u8>) -> Result<(Seq<char>, int), HeaderError> {
    match t {
        AddressType::IPv4 => if b.len() - 19 < 4 {
            Err(HeaderError::IncompleteIpv4)
        } else {
            Ok((ipv4_text(b.subrange(19, 23)), 23))
        },
        AddressType::IPv6 => if b.len() - 19 < 16 {
            Err(HeaderError::IncompleteIpv6)
        } else {
            Ok((byte_string_text(b.subrange(19, 35)), 35))
        },
        AddressType::DomainName => if b.len() <= 19 {
            Err(HeaderError::IncompleteDomain)
        } else if b.len() - 20 < b[19] {
            Err(HeaderError::IncompleteDomainData)
        } else if !valid_utf8(b.subrange(20, 20 + b[19])) {
            Err(HeaderError::InvalidDomain)
        } else {
            Ok((decode_utf8(b.subrange(20, 20 + b[19])), 20 + b[19]))
        },
    }
}

/// A parsed request, as mathematical values.
pub struct RequestView {
    pub uuid: Seq<u8>,
    pub command: Command,
    pub address: Seq<char>,
    pub port: u16,
}

/// What the header at the start of `b` holds, and how many bytes it takes.
pub open spec fn header_spec(b: Seq<u8>) -> Result<(RequestView, int), HeaderError> {
    if b.len() < 24 {
        Err(HeaderError::IncompleteHeader)
    } else {
        match command_of(b[17]) {
            None => Err(HeaderError::UnknownCommand(b[17])),
            Some(command) => match address_type_of(b[18]) {
                None => Err(HeaderError::UnknownAddressType(b[18])),
                Some(t) => match address_spec(t, b) {
                    Err(f) => Err(f),
                    Ok((address, end)) => if b.len() - end < 2 {
                        Err(HeaderError::IncompletePort)
                    } else {
                        Ok(
                            (
                                RequestView {
                                    uuid: b.subrange(1, 17),
                                    command,
                                    address,
                                    port: (b[end] * 256 + b[end + 1]) as u16,
                                },
                                end + 2,
                            ),
                        )
                    },
                },
            },
        }
    }
}

/// What a parsed header holds, read straight off the buffer: it is at least
/// 24 bytes long and ends within the buffer; the user UUID is bytes 1..17;
/// the command is the one byte 17 names (1 is TCP, 2 is UDP), whatever the
/// address type; the port is the two bytes that end the header, high byte
/// first; and the header's length and address follow from the address type
/// in byte 18 (IPv4: four bytes, written as a dotted quad; IPv6: sixteen
/// bytes, written as a byte string; domain: a length byte, then that many
/// bytes of UTF-8 text).
pub proof fn lemma_header_fields(b: Seq<u8>)
    requires
        header_spec(b) is Ok,
    ensures
        ({
            let (req, n) = header_spec(b)->Ok_0;
            &&& 24 <= b.len()
            &&& n <= b.len()
            &&& req.uuid == b.subrange(1, 17)
            &&& (b[17] == 1 && req.command == Command::TCP) || (b[17] == 2 && req.command
                == Command::UDP)
            &&& req.port as int == b[n - 2] as int * 256 + b[n - 1] as int
            &&& b[18] == 1 || b[18] == 2 || b[18] == 3
            &&& b[18] == 1 ==> n == 25 && req.address == decimal(b[19] as nat) + seq!['.']
                + decimal(b[20] as nat) + seq!['.'] + decimal(b[21] as nat) + seq!['.'] + decimal(
                b[22] as nat,
            )
            &&& b[18] == 3 ==> n == 37 && req.address == byte_string_text(b.subrange(19, 35))
            &&& b[18] == 2 ==> n == 22 + b[19] && req.address == decode_utf8(
                b.subrange(20, 20 + b[19]),
            )
        }),
{
}

/// Every buffer that holds a whole header is parsed: at least 24 bytes, a
/// known command, and a known address type with its address and the port
/// in full (and, for a domain, valid UTF-8).
pub proof fn lemma_header_complete(b: Seq<u8>)
    requires
        b.len() >= 24,
        b[17] == 1 || b[17] == 2,
        (b[18] == 1 && b.len() >= 25) || (b[18] == 3 && b.len() >= 37) || (b[18] == 2 && b.len()
            >= 22 + b[19] && valid_utf8(b.subrange(20, 20 + b[19]))),
    ensures
        header_spec(b) is Ok,
{
}

/// How a buffer without a whole header is refused, the fields checked in
/// the order they come: under 24 bytes, the header is incomplete; then an
/// unknown command byte is named, whatever follows it; then an unknown
/// address-type byte; then an address cut short (an IPv6 address, or the
/// bytes of a domain name) or a domain name that is not UTF-8; and last a
/// port cut short.
pub proof fn lemma_header_refusals(b: Seq<u8>)
    ensures
        b.len() < 24 ==> header_spec(b) is Err && header_spec(b)->Err_0
            == HeaderError::IncompleteHeader,
        b.len() >= 24 && b[17] != 1 && b[17] != 2 ==> header_spec(b) is Err && header_spec(b)->Err_0
            == HeaderError::UnknownCommand(b[17]),
        b.len() >= 24 && (b[17] == 1 || b[17] == 2) && (b[18] < 1 || b[18] > 3) ==> header_spec(b)
            is Err && header_spec(b)->Err_0 == HeaderError::UnknownAddressType(b[18]),
        b.len() == 24 && (b[17] == 1 || b[17] == 2) && b[18] == 1 ==> header_spec(b) is Err
            && header_spec(b)->Err_0 == HeaderError::IncompletePort,
        24 <= b.len() < 35 && (b[17] == 1 || b[17] == 2) && b[18] == 3 ==> header_spec(b) is Err
            && header_spec(b)->Err_0 == HeaderError::IncompleteIpv6,
        35 <= b.len() < 37 && (b[17] == 1 || b[17] == 2) && b[18] == 3 ==> header_spec(b) is Err
            && header_spec(b)->Err_0 == HeaderError::IncompletePort,
        b.len() >= 24 && (b[17] == 1 || b[17] == 2) && b[18] == 2 && b.len() < 20 + b[19]
            ==> header_spec(b) is Err && header_spec(b)->Err_0 == HeaderError::IncompleteDomainData,
        b.len() >= 24 && (b[17] == 1 || b[17] == 2) && b[18] == 2 && b.len() >= 20 + b[19]
            && !valid_utf8(b.subrange(20, 20 + b[19])) ==> header_spec(b) is Err && header_spec(
            b,
        )->Err_0 == HeaderError::InvalidDomain,
        b.len() >= 24 && (b[17] == 1 || b[17] == 2) && b[18] == 2 && 20 + b[19] <= b.len() < 22
            + b[19] && valid_utf8(b.subrange(20, 20 + b[19])) ==> header_spec(b) is Err
            && header_spec(b)->Err_0 == HeaderError::IncompletePort,
{
}

/// Bytes that arrive after a complete header change neither the request
/// read from the buffer nor the length of the header: a header, once
/// complete, stays parsed as more data is appended.
pub proof fn lemma_header_prefix_stable(b: Seq<u8>, extra: Seq<u8>)
    requires
        header_spec(b) is Ok,
    ensures
        header_spec(b + extra) == header_spec(b),
{
    let c = b + extra;
    let (req, n) = header_spec(b)->Ok_0;
    assert(n <= b.len());
    assert forall|i: int| 0 <= i < b.len() implies c[i] == b[i] by {}
    assert forall|i: int, j: int| 0 <= i <= j <= b.len() implies c.subrange(i, j) == b.subrange(i, j) by {
        assert(c.subrange(i, j) =~= b.subrange(i, j));
    }
}

/// VLESS request header.
#[derive(Debug, Clone)]
pub struct VlessRequest {
    pub uuid: [u8; 16],
    pub command: Command,
    pub address: String,
    pub port: u16,
}

impl View for VlessRequest {
    type V = RequestView;

    open spec fn view(&self) -> RequestView {
        RequestView {
            uuid: self.uuid@,
            command: self.command,
            address: self.address@,
            port: self.port,
        }
    }
}

/// The `Display` text of the error `String::from_utf8` reports for bytes
/// that are not valid UTF-8.
pub uninterp spec fn utf8_error_text(bytes: Seq<u8>) -> Seq<char>;

/// `String::from_utf8`: succeeds exactly on valid UTF-8 and then holds the
/// decoded characters; otherwise gives the `Display` text of its error,
/// which is the named `utf8_error_text` of the bytes.
#[verifier::external_body]
fn string_from_utf8(v: Vec<u8>) -> (r: Result<String, String>)
    ensures
        r is Ok <==> valid_utf8(v@),
        r matches Ok(s) ==> s@ == decode_utf8(v@),
        r matches Err(t) ==> t@ == utf8_error_text(v@),
{
    String::from_utf8(v).map_err(|e| e.to_string())
}

/// Formats `data` as a `bytes::Bytes` with `{:02x?}`: the `Debug` impl of
/// `Bytes` writes the byte-string form `b"..."` (see [`byte_string_text`]) and
/// ignores width and hex flags.
#[verifier::external_body]
fn bytes_debug_text(data: &[u8]) -> (s: String)
    ensures
        s@ == byte_string_text(data@),
{
    format!("{:02x?}", bytes::Bytes::copy_from_slice(data))
}

/// Appends the decimal rendering of a byte.
fn push_byte_decimal(out: &mut String, b: u8)
    ensures
        final(out)@ == old(out)@ + decimal(b as nat),
{
    push_decimal(out, b as u64);
}

/// Renders four bytes as a dotted quad.
fn ipv4_string(buf: &[u8], at: usize) -> (s: String)
    requires
        at + 4 <= buf@.len(),
    ensures
        s@ == ipv4_text(buf@.subrange(at as int, at + 4)),
{
    let mut s = String::new();
    push_byte_decimal(&mut s, buf[at]);
    push_char(&mut s, '.');
    push_byte_decimal(&mut s, buf[at + 1]);
    push_char(&mut s, '.');
    push_byte_decimal(&mut s, buf[at + 2]);
    push_char(&mut s, '.');
    push_byte_decimal(&mut s, buf[at + 3]);
    s
}

/// Builds the error the parser reports for `f`.
fn header_error(f: HeaderError, Ghost(b): Ghost<Seq<u8>>) -> (e: CdnError)
    requires
        f != HeaderError::InvalidDomain,
    ensures
        reports(e, f, b),
{
    let m = match f {
        HeaderError::IncompleteHeader => String::from_str("Incomplete header"),
        HeaderError::UnknownCommand(v) => {
            let mut m = String::from_str("Unknown command: ");
            push_decimal(&mut m, v as u64);
            m
        },
        HeaderError::UnknownAddressType(v) => {
            let mut m = String::from_str("Unknown address type: ");
            push_decimal(&mut m, v as u64);
            m
        },
        HeaderError::IncompleteIpv4 => String::from_str("Incomplete IPv4 address"),
        HeaderError::IncompleteIpv6 => String::from_str("Incomplete IPv6 address"),
        HeaderError::IncompleteDomain => String::from_str("Incomplete domain name"),
        HeaderError::IncompleteDomainData => String::from_str("Incomplete domain name data"),
        HeaderError::InvalidDomain => String::new(),
        HeaderError::IncompletePort => String::from_str("Incomplete port"),
    };
    CdnError::VlessProtocol(m)
}

impl VlessRequest {
    /// Parses a VLESS request from the start of `buf`, and returns it with
    /// the bytes that follow the header.
    pub fn parse(buf: Vec<u8>) -> (r: Result<(VlessRequest, Vec<u8>), CdnError>)
        ensures
            match header_spec(buf@) {
                Ok((req, n)) => r matches Ok((x, rest)) && x@ == req && rest@ == buf@.subrange(
                    n,
                    buf@.len() as int,
                ),
                Err(f) => r matches Err(e) && reports(e, f, buf@),
            },
    {
        let b = buf.as_slice();
        let len = b.len();
        if len < 24 {
            return Err(header_error(HeaderError::IncompleteHeader, Ghost(b@)));
        }
        let uuid: [u8; 16] = [
            b[1], b[2], b[3], b[4], b[5], b[6], b[7], b[8],
            b[9], b[10], b[11], b[12], b[13], b[14], b[15], b[16],
        ];
        assert(uuid@ =~= b@.subrange(1, 17));
        let command = match Command::try_from(b[17]) {
            Ok(c) => c,
            Err(e) => return Err(e),
        };
        let address_type = match AddressType::try_from(b[18]) {
            Ok(t) => t,
            Err(e) => return Err(e),
        };
        let (address, end) = match address_type {
            AddressType::IPv4 => {
                if len - 19 < 4 {
                    return Err(header_error(HeaderError::IncompleteIpv4, Ghost(b@)));
                }
                (ipv4_string(b, 19), 23usize)
            },
            AddressType::IPv6 => {
                if len - 19 < 16 {
                    return Err(header_error(HeaderError::IncompleteIpv6, Ghost(b@)));
                }
                (bytes_debug_text(vstd::slice::slice_subrange(b, 19, 35)), 35usize)
            },
            AddressType::DomainName => {
                if len <= 19 {
                    return Err(header_error(HeaderError::IncompleteDomain, Ghost(b@)));
                }
                let l = b[19] as usize;
                if len - 20 < l {
                    return Err(header_error(HeaderError::IncompleteDomainData, Ghost(b@)));
                }
                let domain = vstd::slice::slice_to_vec(vstd::slice::slice_subrange(b, 20, 20 + l));
                match string_from_utf8(domain) {
                    Ok(s) => (s, 20 + l),
                    Err(t) => {
                        let mut m = String::from_str("Invalid domain: ");
                        m.append(t.as_str());
                        return Err(CdnError::VlessProtocol(m));
                    },
                }
            },
        };
        if len - end < 2 {
            return Err(header_error(HeaderError::IncompletePort, Ghost(b@)));
        }
        let port: u16 = (b[end] as u16) * 256 + (b[end + 1] as u16);
        let rest = vstd::slice::slice_to_vec(vstd::slice::slice_subrange(b, end + 2, len));
        Ok((VlessRequest { uuid, command, address, port }, rest))
    }
}

/// Checks the UUID of a request against the configured UUID text.
///
/// The request is accepted exactly when the configured text parses as a
/// UUID with the request's bytes; in particular a client is accepted
/// whenever the configured text is the request UUID's hyphenated or simple
/// text, in any letter case.
pub fn validate_uuid(request_uuid: &[u8; 16], configured_uuid: &str) -> (r: Result<(), CdnError>)
    ensures
        match uuid_parse(configured_uuid@) {
            Err(t) => r matches Err(e) && e@ == (
                ErrorKind::VlessProtocol,
                "Invalid configured UUID: "@ + t,
            ),
            Ok(b) => if b == request_uuid@ {
                r is Ok
            } else {
                r matches Err(e) && e@ == (ErrorKind::VlessProtocol, "UUID mismatch"@)
            },
        },
        is_uuid_text_of(configured_uuid@, request_uuid@) ==> r is Ok,
        configured_uuid@ == hyphenated_lower(request_uuid@) ==> r is Ok,
{
    let configured = match parse_uuid(configured_uuid) {
        Ok(b) => b,
        Err(t) => {
            let mut m = String::from_str("Invalid configured UUID: ");
            m.append(t.as_str());
            return Err(CdnError::VlessProtocol(m));
        },
    };
    proof {
        if configured_uuid@ == hyphenated_lower(request_uuid@) {
            lemma_hyphenated_is_uuid_text(request_uuid@);
        }
        if is_uuid_text_of(configured_uuid@, request_uuid@) {
            lemma_hex_digits_injective(configured@, request_uuid@);
        }
    }
    let mut i: usize = 0;
    while i < 16
        invariant
            i <= 16,
            uuid_parse(configured_uuid@) == Ok::<Seq<u8>, Seq<char>>(configured@),
            is_uuid_text_of(configured_uuid@, request_uuid@) ==> configured@ == request_uuid@,
            configured_uuid@ == hyphenated_lower(request_uuid@) ==> configured@ == request_uuid@,
            forall|j: int| 0 <= j < i ==> configured@[j] == request_uuid@[j],
        decreases 16 - i,
    {
        if configured[i] != request_uuid[i] {
            assert(configured@[i as int] != request_uuid@[i as int]);
            return Err(CdnError::VlessProtocol(String::from_str("UUID mismatch")));
        }
        i = i + 1;
    }
    assert(configured@ =~= request_uuid@);
    Ok(())
}

} // verus!
