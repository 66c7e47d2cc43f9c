//! Checksum behaviour observable through the public functions.

use p2p_message::checksum::sha_sha;

/// The checksum of the empty byte sequence is the well-known constant for
/// the double SHA-256 of the empty string, truncated to four bytes.
#[test]
fn checksum_of_empty_is_known_constant() {
    let r = sha_sha(&[]);
    assert_eq!(r, vec![0x5d, 0xf6, 0xe0, 0xe2]);
}

/// The checksum really digests its input: different inputs give different
/// checksums, and none of them echoes the input back.
#[test]
fn checksum_digests_input() {
    let a = sha_sha(&[0x01]);
    let b = sha_sha(&[0x02]);
    assert_eq!(a.len(), 4);
    assert_eq!(b.len(), 4);
    assert_ne!(a, b);
    assert_ne!(a, vec![0x01]);
    // A nonempty input must not produce the empty-input constant.
    assert_ne!(a, vec![0x5d, 0xf6, 0xe0, 0xe2]);
}

/// The same input always gives the same checksum.
#[test]
fn checksum_is_deterministic() {
    let input = [0xde, 0xad, 0xbe, 0xef];
    assert_eq!(sha_sha(&input), sha_sha(&input));
}
