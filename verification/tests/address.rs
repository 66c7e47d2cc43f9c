//! Network address codec behaviour.

use p2p_message::message::address::{addr_to_be, Address, AddressError, SocketAddress};

fn encode_address(a: &Address) -> Vec<u8> {
    let mut out = Vec::new();
    a.encode(&mut out);
    out
}

/// Encoding an IPv4 address with services 0 and port 8333 yields the
/// documented 26-byte layout: 8 zero service bytes, the IPv4-mapped groups,
/// then the port big-endian.
#[test]
fn address_encode_localhost_8333() {
    let socket = SocketAddress::V4 { ip: [127, 0, 0, 1], port: 8333 };
    let a = Address::new(&socket, 0);
    let bytes = encode_address(&a);
    let mut expected = vec![0u8; 8];
    expected.extend_from_slice(&[
        0x00, 0x00, 0x00, 0x00, 0x00, 0x00, 0x00, 0x00, 0x00, 0x00, 0xff, 0xff, 0x7f, 0x00, 0x00,
        0x01,
    ]);
    expected.extend_from_slice(&[0x20, 0x8d]);
    assert_eq!(bytes, expected);
}

/// Decoding the documented layout yields the address it encodes.
#[test]
fn address_decode_localhost_8333() {
    let bytes = [
        0x00, 0x00, 0x00, 0x00, 0x00, 0x00, 0x00, 0x00, // services
        0x00, 0x00, 0x00, 0x00, 0x00, 0x00, 0x00, 0x00, 0x00, 0x00, 0xff, 0xff, 0x7f, 0x00, 0x00,
        0x01, // groups
        0x20, 0x8d, // port
    ];
    let a = Address::decode(&bytes, 0);
    assert_eq!(a.services, 0);
    assert_eq!(a.address, [0, 0, 0, 0, 0, 0xffff, 0x7f00, 0x0001]);
    assert_eq!(a.port, 8333);
}

/// Encode then decode reproduces an IPv4-mapped address.
#[test]
fn address_round_trip_v4_mapped() {
    let socket = SocketAddress::V4 { ip: [192, 168, 1, 7], port: 8333 };
    let a = Address::new(&socket, 1);
    let bytes = encode_address(&a);
    assert_eq!(bytes.len(), 26);
    let back = Address::decode(bytes.as_slice(), 0);
    assert_eq!(back, a);
}

/// Encode then decode reproduces a native IPv6 address.
#[test]
fn address_round_trip_v6() {
    let socket = SocketAddress::V6 {
        groups: [0x2001, 0x0db8, 0x85a3, 0, 0, 0x8a2e, 0x0370, 0x7334],
        port: 18333,
    };
    let a = Address::new(&socket, 9);
    let bytes = encode_address(&a);
    let back = Address::decode(bytes.as_slice(), 0);
    assert_eq!(back, a);
}

/// Decoding reads at the given position, ignoring what stands before it.
#[test]
fn address_decode_at_offset() {
    let socket = SocketAddress::V4 { ip: [10, 0, 0, 2], port: 80 };
    let a = Address::new(&socket, 5);
    let mut bytes = vec![0xaa, 0xbb, 0xcc];
    a.encode(&mut bytes);
    let back = Address::decode(bytes.as_slice(), 3);
    assert_eq!(back, a);
}

/// Extracting a socket address from an IPv4-mapped entry reports the IPv4
/// socket back.
#[test]
fn socket_addr_v4_round_trip() {
    let socket = SocketAddress::V4 { ip: [127, 0, 0, 1], port: 8333 };
    let a = Address::new(&socket, 0);
    match a.socket_addr() {
        Ok(SocketAddress::V4 { ip, port }) => {
            assert_eq!(ip, [127, 0, 0, 1]);
            assert_eq!(port, 8333);
        }
        other => panic!("expected the IPv4 socket back, got {:?}", other),
    }
}

/// Extracting a socket address from a native IPv6 entry reports it
/// unchanged.
#[test]
fn socket_addr_v6_round_trip() {
    let groups = [0x2001, 0x0db8, 0, 0, 0, 0, 0, 1];
    let socket = SocketAddress::V6 { groups, port: 18333 };
    let a = Address::new(&socket, 0);
    match a.socket_addr() {
        Ok(SocketAddress::V6 { groups: g, port }) => {
            assert_eq!(g, groups);
            assert_eq!(port, 18333);
        }
        other => panic!("expected the IPv6 socket back, got {:?}", other),
    }
}

/// Only the IPv4-mapped shape reduces: groups whose sixth group is zero,
/// the deprecated IPv4-compatible shape, are reported as IPv6 unchanged.
#[test]
fn socket_addr_compatible_shape_stays_v6() {
    let groups = [0, 0, 0, 0, 0, 0, 0x1234, 0x5678];
    let a = Address { services: 0, address: groups, port: 8333 };
    match a.socket_addr() {
        Ok(SocketAddress::V6 { groups: g, port }) => {
            assert_eq!(g, groups);
            assert_eq!(port, 8333);
        }
        other => panic!("expected the IPv6 identity, got {:?}", other),
    }
    // the loopback of IPv6 likewise stays IPv6
    let loopback = Address { services: 0, address: [0, 0, 0, 0, 0, 0, 0, 1], port: 1 };
    assert!(matches!(
        loopback.socket_addr(),
        Ok(SocketAddress::V6 { groups: [0, 0, 0, 0, 0, 0, 0, 1], port: 1 })
    ));
}

/// The checked decoder reports nothing on a truncated buffer and the entry
/// on a complete one.
#[test]
fn try_decode_rejects_truncated_buffer() {
    let socket = SocketAddress::V4 { ip: [10, 0, 0, 2], port: 80 };
    let a = Address::new(&socket, 5);
    let bytes = encode_address(&a);
    assert_eq!(Address::try_decode(bytes.as_slice(), 0), Some(a));
    assert_eq!(Address::try_decode(&bytes[..25], 0), None);
    assert_eq!(Address::try_decode(bytes.as_slice(), 1), None);
    assert_eq!(Address::try_decode(&[], 0), None);
}

/// A Tor hidden-service entry yields no routable socket address.
#[test]
fn socket_addr_tor_unavailable() {
    let a = Address {
        services: 0,
        address: [0xfd87, 0xd87e, 0xeb43, 1, 2, 3, 4, 5],
        port: 9050,
    };
    assert!(matches!(a.socket_addr(), Err(AddressError::AddrNotAvailable)));
}

/// Byte-swapping the groups turns each into its big-endian picture.
#[test]
fn addr_to_be_swaps_each_group() {
    let swapped = addr_to_be([0x1234, 0xff00, 0x0001, 0, 0xabcd, 1, 2, 3]);
    assert_eq!(
        swapped,
        [0x3412, 0x00ff, 0x0100, 0, 0xcdab, 0x0100, 0x0200, 0x0300]
    );
}
