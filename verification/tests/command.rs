//! Command identifier codec behaviour.

use p2p_message::message::command::CommandString;

/// Encoding pads the name with zero bytes to exactly 12.
#[test]
fn command_encode_pads_to_twelve() {
    let c = CommandString(b"verack".to_vec());
    let encoded = c.encode();
    assert_eq!(
        encoded,
        vec![0x76, 0x65, 0x72, 0x61, 0x63, 0x6b, 0, 0, 0, 0, 0, 0]
    );
}

/// A 12-byte name needs no padding and encodes to itself.
#[test]
fn command_encode_full_width() {
    let c = CommandString(b"abcdefghijkl".to_vec());
    assert_eq!(c.encode(), b"abcdefghijkl".to_vec());
}

/// Decoding strips the trailing zero padding.
#[test]
fn command_decode_strips_padding() {
    let raw = [0x76, 0x65, 0x72, 0x61, 0x63, 0x6b, 0, 0, 0, 0, 0, 0];
    let c = CommandString::decode(&raw);
    assert_eq!(c.0, b"verack".to_vec());
}

/// Decoding drops zero bytes wherever they stand, collapsing internal zeros.
#[test]
fn command_decode_collapses_internal_zeros() {
    let raw = [b'a', 0, b'b', 0, 0, b'c', 0, 0, 0, 0, 0, b'd'];
    let c = CommandString::decode(&raw);
    assert_eq!(c.0, b"abcd".to_vec());
}

/// Encode then decode reproduces any zero-free name of at most 12 bytes.
#[test]
fn command_round_trip() {
    for name in [&b"version"[..], &b"getdata"[..], &b"a"[..], &b"abcdefghijkl"[..]] {
        let c = CommandString(name.to_vec());
        let decoded = CommandString::decode(c.encode().as_slice());
        assert_eq!(decoded.0, name.to_vec());
    }
}

/// A name longer than 12 bytes has no wire form.
#[test]
fn command_too_long_is_rejected() {
    let c = CommandString(b"abcdefghijklm".to_vec());
    assert!(c.try_encode().is_none());
    let ok = CommandString(b"abcdefghijkl".to_vec());
    assert!(ok.try_encode().is_some());
}
