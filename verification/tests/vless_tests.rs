use cf_cdn::error::CdnError;
use cf_cdn::vless::{validate_uuid, AddressType, Command, VlessRequest};

const UUID_BYTES: [u8; 16] = [
    0x55, 0x0e, 0x84, 0x00, 0xe2, 0x9b, 0x41, 0xd4, 0xa7, 0x16, 0x44, 0x66, 0x55, 0x44, 0x00, 0x00,
];

fn header(command: u8, address_type: u8, address: &[u8], port: u16) -> Vec<u8> {
    let mut v = vec![0u8];
    v.extend_from_slice(&UUID_BYTES);
    v.push(command);
    v.push(address_type);
    v.extend_from_slice(address);
    v.push((port >> 8) as u8);
    v.push((port & 0xff) as u8);
    v
}

fn vless_message(r: Result<(VlessRequest, Vec<u8>), CdnError>) -> String {
    match r {
        Err(CdnError::VlessProtocol(m)) => m,
        other => panic!("expected a VLESS protocol error, got {:?}", other),
    }
}

#[test]
fn test_command_parsing() {
    assert_eq!(Command::try_from(1).unwrap(), Command::TCP);
    assert_eq!(Command::try_from(2).unwrap(), Command::UDP);
}

#[test]
fn test_address_type_parsing() {
    assert_eq!(AddressType::try_from(1).unwrap(), AddressType::IPv4);
    assert_eq!(AddressType::try_from(2).unwrap(), AddressType::DomainName);
    assert_eq!(AddressType::try_from(3).unwrap(), AddressType::IPv6);
}

#[test]
fn unknown_command_and_address_type_are_refused() {
    match Command::try_from(7) {
        Err(CdnError::VlessProtocol(m)) => assert_eq!(m, "Unknown command: 7"),
        other => panic!("{:?}", other),
    }
    match AddressType::try_from(0) {
        Err(CdnError::VlessProtocol(m)) => assert_eq!(m, "Unknown address type: 0"),
        other => panic!("{:?}", other),
    }
    match AddressType::try_from(255) {
        Err(CdnError::VlessProtocol(m)) => assert_eq!(m, "Unknown address type: 255"),
        other => panic!("{:?}", other),
    }
}

#[test]
fn parses_ipv4_request_and_keeps_payload() {
    let mut buf = header(1, 1, &[192, 168, 0, 10], 443);
    buf.extend_from_slice(b"GET /");
    let (req, rest) = VlessRequest::parse(buf).unwrap();
    assert_eq!(req.uuid, UUID_BYTES);
    assert_eq!(req.command, Command::TCP);
    assert_eq!(req.address, "192.168.0.10");
    assert_eq!(req.port, 443);
    assert_eq!(rest, b"GET /".to_vec());
}

#[test]
fn parses_domain_request() {
    let mut addr = vec![11u8];
    addr.extend_from_slice(b"example.com");
    let buf = header(2, 2, &addr, 8080);
    let (req, rest) = VlessRequest::parse(buf).unwrap();
    assert_eq!(req.command, Command::UDP);
    assert_eq!(req.address, "example.com");
    assert_eq!(req.port, 8080);
    assert!(rest.is_empty());
}

#[test]
fn parses_ipv6_request_as_byte_string() {
    let ip = [
        0x20, 0x01, 0x0d, 0xb8, 0x00, 0x0a, 0x41, 0x5c, 0x22, 0x09, 0x0a, 0x7f, 0x00, 0x00, 0x00,
        0x01,
    ];
    let buf = header(1, 3, &ip, 53);
    let (req, rest) = VlessRequest::parse(buf).unwrap();
    assert_eq!(req.address, "b\" \\x01\\r\\xb8\\0\\nA\\\\\\\"\\t\\n\\x7f\\0\\0\\0\\x01\"");
    assert_eq!(req.port, 53);
    assert!(rest.is_empty());
}

#[test]
fn short_buffer_is_incomplete_header() {
    let buf = vec![0u8; 23];
    assert_eq!(vless_message(VlessRequest::parse(buf)), "Incomplete header");
}

#[test]
fn parse_reports_each_header_error() {
    assert_eq!(
        vless_message(VlessRequest::parse(header(3, 1, &[1, 2, 3, 4], 80))),
        "Unknown command: 3"
    );
    assert_eq!(
        vless_message(VlessRequest::parse(header(1, 9, &[1, 2, 3, 4], 80))),
        "Unknown address type: 9"
    );
    // IPv4 address complete, but only one port byte.
    let mut b = header(1, 1, &[1, 2, 3, 4], 80);
    b.pop();
    assert_eq!(vless_message(VlessRequest::parse(b)), "Incomplete port");
    // IPv6 address cut short.
    let b = header(1, 3, &[0u8; 8], 80);
    assert_eq!(vless_message(VlessRequest::parse(b)), "Incomplete IPv6 address");
    // Domain length larger than what follows.
    let mut addr = vec![40u8];
    addr.extend_from_slice(b"short.example");
    assert_eq!(
        vless_message(VlessRequest::parse(header(1, 2, &addr, 80))),
        "Incomplete domain name data"
    );
    // Domain that is not UTF-8.
    let addr = vec![3u8, 0xff, 0xfe, 0xfd];
    let m = vless_message(VlessRequest::parse(header(1, 2, &addr, 80)));
    assert_eq!(m, "Invalid domain: invalid utf-8 sequence of 1 bytes from index 0");
}

#[test]
fn complete_header_stays_parsed_when_data_is_appended() {
    let base = header(1, 1, &[10, 0, 0, 1], 22);
    let (req1, rest1) = VlessRequest::parse(base.clone()).unwrap();
    let mut more = base.clone();
    more.extend_from_slice(&[1, 2, 3]);
    let (req2, rest2) = VlessRequest::parse(more).unwrap();
    assert_eq!(req1.uuid, req2.uuid);
    assert_eq!(req1.address, req2.address);
    assert_eq!(req1.port, req2.port);
    assert!(rest1.is_empty());
    assert_eq!(rest2, vec![1, 2, 3]);
}

#[test]
fn uuid_validation() {
    assert!(validate_uuid(&UUID_BYTES, "550e8400-e29b-41d4-a716-446655440000").is_ok());
    // Other formats that the uuid crate accepts.
    assert!(validate_uuid(&UUID_BYTES, "550E8400-E29B-41D4-A716-446655440000").is_ok());
    assert!(validate_uuid(&UUID_BYTES, "550e8400e29b41d4a716446655440000").is_ok());
    assert!(validate_uuid(&UUID_BYTES, "550E8400e29b41D4A716446655440000").is_ok());
    match validate_uuid(&UUID_BYTES, "650e8400-e29b-41d4-a716-446655440000") {
        Err(CdnError::VlessProtocol(m)) => assert_eq!(m, "UUID mismatch"),
        other => panic!("{:?}", other),
    }
    match validate_uuid(&UUID_BYTES, "not-a-uuid") {
        Err(CdnError::VlessProtocol(m)) => {
            assert!(m.starts_with("Invalid configured UUID: "), "{}", m)
        }
        other => panic!("{:?}", other),
    }
}

#[test]
fn byte_conversions_through_try_into() {
    let c: Command = 2u8.try_into().unwrap();
    assert_eq!(c, Command::UDP);
    let t: Result<AddressType, CdnError> = 4u8.try_into();
    assert!(t.is_err());
}
