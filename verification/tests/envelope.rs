//! Envelope assembly and parsing behaviour.

use p2p_message::checksum::sha_sha;
use p2p_message::message::address::{Address, SocketAddress};
use p2p_message::message::command::CommandString;
use p2p_message::message::filterload::FilterLoad;
use p2p_message::message::getdata::GetData;
use p2p_message::message::version::VersionMessage;
use p2p_message::message::{parse, DecodeError, Magic, Payload, RawMessage};

fn sample_version() -> VersionMessage {
    let receiver = Address::new(&SocketAddress::V4 { ip: [127, 0, 0, 1], port: 8333 }, 2);
    let sender = Address::new(
        &SocketAddress::V6 { groups: [0x2001, 0x0db8, 0, 0, 0, 0, 0, 1], port: 18333 },
        3,
    );
    VersionMessage::new(
        1,
        0x0102030405060708,
        receiver,
        sender,
        0x1122334455667788,
        0x1b,
        b"ab".to_vec(),
        329107,
    )
}

/// The serialized handshake offer lays every field out in declaration order,
/// little-endian integers, big-endian address groups and port, the user
/// agent length-prefixed, the relay flag as one byte.
#[test]
fn version_payload_exact_bytes() {
    let payload = Payload::Version(sample_version());
    let (len, _checksum, data) = payload.calc();
    let mut expected: Vec<u8> = Vec::new();
    // protocol version 70001
    expected.extend_from_slice(&[0x71, 0x11, 0x01, 0x00]);
    // services 1
    expected.extend_from_slice(&[0x01, 0x00, 0x00, 0x00, 0x00, 0x00, 0x00, 0x00]);
    // timestamp 0x0102030405060708
    expected.extend_from_slice(&[0x08, 0x07, 0x06, 0x05, 0x04, 0x03, 0x02, 0x01]);
    // receiver: services 2, 127.0.0.1 mapped, port 8333
    expected.extend_from_slice(&[0x02, 0x00, 0x00, 0x00, 0x00, 0x00, 0x00, 0x00]);
    expected.extend_from_slice(&[
        0x00, 0x00, 0x00, 0x00, 0x00, 0x00, 0x00, 0x00, 0x00, 0x00, 0xff, 0xff, 0x7f, 0x00, 0x00,
        0x01,
    ]);
    expected.extend_from_slice(&[0x20, 0x8d]);
    // sender: services 3, 2001:db8::1, port 18333
    expected.extend_from_slice(&[0x03, 0x00, 0x00, 0x00, 0x00, 0x00, 0x00, 0x00]);
    expected.extend_from_slice(&[
        0x20, 0x01, 0x0d, 0xb8, 0x00, 0x00, 0x00, 0x00, 0x00, 0x00, 0x00, 0x00, 0x00, 0x00, 0x00,
        0x01,
    ]);
    expected.extend_from_slice(&[0x47, 0x9d]);
    // nonce
    expected.extend_from_slice(&[0x88, 0x77, 0x66, 0x55, 0x44, 0x33, 0x22, 0x11]);
    // reserved byte
    expected.push(0x1b);
    // user agent, length-prefixed
    expected.push(0x02);
    expected.extend_from_slice(b"ab");
    // start height 329107
    expected.extend_from_slice(&[0x93, 0x05, 0x05, 0x00]);
    // relay flag: new() clears it
    expected.push(0x00);
    assert_eq!(len as usize, expected.len());
    assert_eq!(data, Some(expected));
}

/// Encoding the acknowledgement with the Main selector yields exactly the
/// documented 24 bytes.
#[test]
fn verack_envelope_exact_bytes() {
    let m = RawMessage::new(Magic::Main, CommandString(b"verack".to_vec()), Payload::Verack);
    let bytes = m.combine();
    assert_eq!(
        bytes,
        vec![
            0xf9, 0xbe, 0xb4, 0xd9, // magic
            0x76, 0x65, 0x72, 0x61, 0x63, 0x6b, 0x00, 0x00, 0x00, 0x00, 0x00, 0x00, // command
            0x00, 0x00, 0x00, 0x00, // length
            0x5d, 0xf6, 0xe0, 0xe2, // checksum of the empty payload
        ]
    );
}

/// The Testnet selector maps to its own magic value.
#[test]
fn testnet_magic_value() {
    let m = RawMessage::new(Magic::Testnet, CommandString(b"verack".to_vec()), Payload::Verack);
    assert_eq!(m.magic_num(), 0xdab5bffa);
    let bytes = m.combine();
    assert_eq!(&bytes[0..4], &[0xfa, 0xbf, 0xb5, 0xda]);
}

/// Round trip: parsing an assembled handshake offer reproduces selector,
/// command and payload.
#[test]
fn round_trip_version() {
    let m = RawMessage::new(
        Magic::Main,
        CommandString(b"version".to_vec()),
        Payload::Version(sample_version()),
    );
    let bytes = m.combine();
    let back = parse(bytes.as_slice()).expect("a buffer this library assembled must parse");
    assert_eq!(back, m);
}

/// Round trip for the payload-less acknowledgement.
#[test]
fn round_trip_verack() {
    let m = RawMessage::new(Magic::Testnet, CommandString(b"verack".to_vec()), Payload::Verack);
    let bytes = m.combine();
    let back = parse(bytes.as_slice()).expect("a buffer this library assembled must parse");
    assert_eq!(back, m);
}

/// Round trip for an opaque filter-load body.
#[test]
fn round_trip_filterload() {
    let body = vec![0x02, 0xb5, 0x0f, 0x0b, 0x00, 0x00, 0x00, 0x00, 0x00, 0x00, 0x00, 0x00];
    let m = RawMessage::new(
        Magic::Main,
        CommandString(b"filterload".to_vec()),
        Payload::FilterLoad(FilterLoad(body)),
    );
    let bytes = m.combine();
    let back = parse(bytes.as_slice()).expect("a buffer this library assembled must parse");
    assert_eq!(back, m);
}

/// Round trip for an opaque inventory request.
#[test]
fn round_trip_getdata() {
    let body = vec![0x01, 0x03, 0x00, 0x00, 0x00, 0xa4, 0xde, 0xb6, 0x6c];
    let m = RawMessage::new(
        Magic::Main,
        CommandString(b"getdata".to_vec()),
        Payload::GetData(GetData(body)),
    );
    let bytes = m.combine();
    let back = parse(bytes.as_slice()).expect("a buffer this library assembled must parse");
    assert_eq!(back, m);
}

/// Idempotence: parsing then re-assembling reproduces the received bytes.
#[test]
fn reassemble_is_byte_identical() {
    let messages = [
        RawMessage::new(
            Magic::Main,
            CommandString(b"version".to_vec()),
            Payload::Version(sample_version()),
        ),
        RawMessage::new(Magic::Main, CommandString(b"verack".to_vec()), Payload::Verack),
        RawMessage::new(
            Magic::Testnet,
            CommandString(b"getdata".to_vec()),
            Payload::GetData(GetData(vec![1, 2, 3])),
        ),
    ];
    for m in messages {
        let bytes = m.combine();
        let back = parse(bytes.as_slice()).expect("a buffer this library assembled must parse");
        assert_eq!(back.combine(), bytes);
    }
}

/// Idempotence holds for received bytes too: a hand-written envelope parses
/// and re-assembles byte-identically.
#[test]
fn reassemble_received_bytes() {
    let bytes = vec![
        0xf9, 0xbe, 0xb4, 0xd9, // magic
        0x76, 0x65, 0x72, 0x61, 0x63, 0x6b, 0x00, 0x00, 0x00, 0x00, 0x00, 0x00, // command
        0x00, 0x00, 0x00, 0x00, // length
        0x5d, 0xf6, 0xe0, 0xe2, // checksum
    ];
    let m = parse(bytes.as_slice()).expect("the documented envelope must parse");
    assert_eq!(m.combine(), bytes);
}

/// The one ambiguity idempotence excludes: a command whose wire bytes hide a
/// zero between name bytes still parses, but re-assembles in canonical
/// zero-padded form, which differs from what was received.
#[test]
fn reassemble_differs_for_non_canonical_command_padding() {
    let m = RawMessage::new(Magic::Main, CommandString(b"verack".to_vec()), Payload::Verack);
    let mut bytes = m.combine();
    // move the trailing 'k' one slot right: "verac\0k" decodes to "verack"
    assert_eq!(bytes[9], b'k');
    bytes[9] = 0;
    bytes[10] = b'k';
    let back = parse(bytes.as_slice()).expect("padding quirks must still parse");
    assert_eq!(back.command().0, b"verack".to_vec());
    assert_ne!(back.combine(), bytes);
}

/// A buffer shorter than the header is reported truncated.
#[test]
fn parse_truncated_header() {
    assert_eq!(parse(&[0xf9, 0xbe, 0xb4]), Err(DecodeError::Truncated));
}

/// A buffer shorter than the length its header announces is reported
/// truncated.
#[test]
fn parse_truncated_body() {
    let m = RawMessage::new(
        Magic::Main,
        CommandString(b"getdata".to_vec()),
        Payload::GetData(GetData(vec![1, 2, 3])),
    );
    let mut bytes = m.combine();
    bytes.pop();
    assert_eq!(parse(bytes.as_slice()), Err(DecodeError::Truncated));
}

/// A buffer that goes on past the announced length is rejected.
#[test]
fn parse_trailing_bytes() {
    let m = RawMessage::new(Magic::Main, CommandString(b"verack".to_vec()), Payload::Verack);
    let mut bytes = m.combine();
    bytes.push(0x00);
    assert_eq!(parse(bytes.as_slice()), Err(DecodeError::TrailingBytes));
}

/// An unknown magic value is rejected before anything else is looked at.
#[test]
fn parse_unknown_network() {
    let m = RawMessage::new(Magic::Main, CommandString(b"verack".to_vec()), Payload::Verack);
    let mut bytes = m.combine();
    bytes[0] = 0x00;
    assert_eq!(parse(bytes.as_slice()), Err(DecodeError::UnknownNetwork));
}

/// A corrupted payload no longer matches the header checksum.
#[test]
fn parse_checksum_mismatch() {
    let m = RawMessage::new(
        Magic::Main,
        CommandString(b"getdata".to_vec()),
        Payload::GetData(GetData(vec![1, 2, 3])),
    );
    let mut bytes = m.combine();
    let last = bytes.len() - 1;
    bytes[last] ^= 0xff;
    assert_eq!(parse(bytes.as_slice()), Err(DecodeError::ChecksumMismatch));
}

/// A command naming no known variant is rejected, after the checksum.
#[test]
fn parse_unknown_command() {
    let m = RawMessage::new(Magic::Main, CommandString(b"bogus".to_vec()), Payload::Verack);
    let bytes = m.combine();
    assert_eq!(parse(bytes.as_slice()), Err(DecodeError::UnknownCommand));
}

/// An acknowledgement that carries payload bytes is malformed.
#[test]
fn parse_verack_with_payload_is_malformed() {
    let mut bytes = Vec::new();
    bytes.extend_from_slice(&[0xf9, 0xbe, 0xb4, 0xd9]);
    bytes.extend_from_slice(b"verack");
    bytes.extend_from_slice(&[0, 0, 0, 0, 0, 0]);
    bytes.extend_from_slice(&[0x01, 0x00, 0x00, 0x00]); // length 1
    let payload = [0x00u8];
    bytes.extend_from_slice(sha_sha(&payload).as_slice());
    bytes.extend_from_slice(&payload);
    assert_eq!(parse(bytes.as_slice()), Err(DecodeError::MalformedPayload));
}

/// A handshake offer whose relay byte is neither zero nor one is malformed.
#[test]
fn parse_version_bad_relay_byte_is_malformed() {
    let m = RawMessage::new(
        Magic::Main,
        CommandString(b"version".to_vec()),
        Payload::Version(sample_version()),
    );
    let mut bytes = m.combine();
    let last = bytes.len() - 1;
    bytes[last] = 0x02;
    // re-stamp the checksum so only the relay byte is at fault
    let checksum = sha_sha(&bytes[24..]);
    bytes[20..24].copy_from_slice(checksum.as_slice());
    assert_eq!(parse(bytes.as_slice()), Err(DecodeError::MalformedPayload));
}

/// A handshake offer whose user-agent length prefix is not in its shortest
/// form is malformed.
#[test]
fn parse_version_non_minimal_length_prefix_is_malformed() {
    let m = RawMessage::new(
        Magic::Main,
        CommandString(b"version".to_vec()),
        Payload::Version(sample_version()),
    );
    let bytes = m.combine();
    // Rebuild the payload with the one-byte marker 0x02 widened to fd 02 00.
    let payload = &bytes[24..];
    let mut widened = payload[..81].to_vec();
    assert_eq!(payload[81], 0x02);
    widened.extend_from_slice(&[0xfd, 0x02, 0x00]);
    widened.extend_from_slice(&payload[82..]);
    let mut out = bytes[..16].to_vec();
    out.extend_from_slice(&(widened.len() as u32).to_le_bytes());
    out.extend_from_slice(sha_sha(widened.as_slice()).as_slice());
    out.extend_from_slice(widened.as_slice());
    assert_eq!(parse(out.as_slice()), Err(DecodeError::MalformedPayload));
}

/// Parsing reads the command back with its padding stripped.
#[test]
fn parse_exposes_fields() {
    let m = RawMessage::new(Magic::Main, CommandString(b"verack".to_vec()), Payload::Verack);
    let bytes = m.combine();
    let back = parse(bytes.as_slice()).expect("a buffer this library assembled must parse");
    assert!(matches!(back.magic(), Magic::Main));
    assert_eq!(back.command().0, b"verack".to_vec());
    assert!(matches!(back.payload(), Payload::Verack));
}
