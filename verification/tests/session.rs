use icmp_ping::client::Client;
use icmp_ping::error::PingError;
use icmp_ping::frame::decode_datagram;
use icmp_ping::packet::IcmpPacket;
use icmp_ping::server::Server;

/// An ICMP message wrapped in a minimal 20-byte IPv4 header, as a raw socket
/// hands it up: first byte 0x45 (version 4, header length 5 words).
fn frame(icmp: &[u8]) -> Vec<u8> {
    let mut datagram = vec![0u8; 20];
    datagram[0] = 0x45;
    datagram.extend_from_slice(icmp);
    datagram
}

#[test]
fn session_starts_at_zero() {
    let session = Client::new(0x4242);
    assert_eq!(session.identifier, 0x4242);
    assert_eq!(session.sequence, 0);
}

#[test]
fn next_request_advances_sequence() {
    let mut session = Client::new(0x0102);
    let first = session.next_request();
    let second = session.next_request();
    assert_eq!(first.identifier, 0x0102);
    assert_eq!(first.sequence, 0);
    assert_eq!(second.sequence, 1);
    assert_eq!(session.sequence, 2);
    assert_eq!(first.type_, 8);
    assert_eq!(first.code, 0);
    assert_eq!(first.payload, vec![0u8; 56]);
}

#[test]
fn sequence_wraps_at_16_bits() {
    let mut session = Client::new(1);
    session.sequence = 0xFFFF;
    let request = session.next_request();
    assert_eq!(request.sequence, 0xFFFF);
    assert_eq!(session.sequence, 0);
}

#[test]
fn parse_reply_strips_ip_header() {
    let mut reply = IcmpPacket {
        type_: 0,
        code: 0,
        checksum: 0,
        identifier: 0x1234,
        sequence: 5,
        payload: vec![0u8; 56],
    };
    let datagram = frame(&reply.bytes());
    let parsed = Client::parse_reply(&datagram).expect("well-framed reply must parse");
    assert_eq!(parsed.type_, 0);
    assert_eq!(parsed.identifier, 0x1234);
    assert_eq!(parsed.sequence, 5);
    assert_eq!(parsed.payload, vec![0u8; 56]);
}

#[test]
fn parse_reply_rejects_short_frame() {
    // 20-byte IP header but only 4 bytes of ICMP data.
    let datagram = frame(&[8, 0, 0, 0]);
    assert_eq!(Client::parse_reply(&datagram).unwrap_err(), PingError::MalformedPacket);
    // Too short for even the claimed IP header.
    assert_eq!(Client::parse_reply(&[0x45, 0, 0]).unwrap_err(), PingError::MalformedPacket);
    assert_eq!(Client::parse_reply(&[]).unwrap_err(), PingError::MalformedPacket);
}

#[test]
fn decode_datagram_longer_ip_header() {
    // Header length nibble 6: a 24-byte IP header before the ICMP data.
    let mut datagram = vec![0u8; 24];
    datagram[0] = 0x46;
    let mut request = IcmpPacket::new_echo_req(0x7777, 2);
    datagram.extend_from_slice(&request.bytes());
    let decoded = decode_datagram(&datagram).expect("well-framed datagram must decode");
    assert_eq!(decoded.identifier, 0x7777);
    assert_eq!(decoded.sequence, 2);
}

#[test]
fn responder_answers_echo_request() {
    let mut request = IcmpPacket::new_echo_req(0x55AA, 9);
    let datagram = frame(&request.bytes());
    let responder = Server {};
    let reply_bytes = responder.handle_datagram(&datagram).expect("echo request gets a reply");
    let reply = IcmpPacket::from_bytes(&reply_bytes).expect("reply must decode");
    assert_eq!(reply.type_, 0);
    assert_eq!(reply.code, 0);
    assert_eq!(reply.identifier, 0x55AA);
    assert_eq!(reply.sequence, 9);
    assert_eq!(reply.payload, vec![0u8; 56]);
}

#[test]
fn responder_ignores_non_request() {
    let responder = Server {};
    // An Echo Reply (type 0) gets no answer.
    let mut reply = IcmpPacket::new_echo_req(1, 1);
    reply.type_ = 0;
    let datagram = frame(&reply.bytes());
    assert!(responder.handle_datagram(&datagram).is_none());
    // A malformed datagram gets no answer either.
    assert!(responder.handle_datagram(&[0x45, 1, 2]).is_none());
    assert!(responder.handle_datagram(&[]).is_none());
}
