//! Network address codec: a peer's service bitmask, 128-bit address and port,
//! laid out with the services little-endian and the address groups and the
//! port big-endian. An IPv4 address travels inside the 128-bit field in its
//! IPv6-mapped form; a Tor hidden-service entry is recognized by a fixed
//! three-group prefix and yields no routable socket address.

use vstd::prelude::*;
use crate::codec::{
    lemma_swapped_le_is_be, lemma_u16_be_round_trip, lemma_u64_le_round_trip, push_u16_le,
    push_u64_le, read_u16_be, read_u64_le, spec_swap16, spec_u16_be, spec_u16_from_be,
    spec_u16_le, spec_u64_from_le, spec_u64_le,
};

verus! {

broadcast use vstd::array::group_array_axioms;

/// An address entry as a message carries it.
#[derive(Clone, Copy, Debug)]
pub struct Address {
    /// Services provided by the peer whose address this is.
    pub services: u64,
    /// The eight 16-bit groups of an IPv6 address, or of an IPv4-mapped IPv6
    /// address, in host order.
    pub address: [u16; 8],
    /// Network port.
    pub port: u16,
}

/// The mathematical content of an [`Address`]: the same fields with the
/// groups as a sequence.
#[verifier::ext_equal]
pub struct AddressView {
    pub services: u64,
    pub address: Seq<u16>,
    pub port: u16,
}

impl View for Address {
    type V = AddressView;

    open spec fn view(&self) -> AddressView {
        AddressView { services: self.services, address: self.address@, port: self.port }
    }
}

impl PartialEq for Address {
    /// Equality is by value: services, every group, and port.
    fn eq(&self, other: &Address) -> (r: bool) {
        let r = self.services == other.services && self.port == other.port && self.address[0]
            == other.address[0] && self.address[1] == other.address[1] && self.address[2]
            == other.address[2] && self.address[3] == other.address[3] && self.address[4]
            == other.address[4] && self.address[5] == other.address[5] && self.address[6]
            == other.address[6] && self.address[7] == other.address[7];
        proof {
            if r {
                assert(self.address@ =~= other.address@);
                assert(self@ =~= other@);
            }
        }
        r
    }
}

impl vstd::std_specs::cmp::PartialEqSpecImpl for Address {
    open spec fn obeys_eq_spec() -> bool {
        true
    }

    open spec fn eq_spec(&self, other: &Address) -> bool {
        self@ == other@
    }
}

impl Eq for Address {}

/// A routable socket address handed in by, or reported to, the transport
/// driver, as plain values.
#[derive(Clone, Copy, Debug)]
pub enum SocketAddress {
    V4 { ip: [u8; 4], port: u16 },
    V6 { groups: [u16; 8], port: u16 },
}

impl SocketAddress {
    pub open spec fn spec_port(self) -> u16 {
        match self {
            SocketAddress::V4 { ip, port } => port,
            SocketAddress::V6 { groups, port } => port,
        }
    }
}

/// The failure reported where a routable socket address is asked of a Tor
/// hidden-service entry.
#[derive(Clone, Copy, Debug, PartialEq, Eq, Structural)]
pub enum AddressError {
    AddrNotAvailable,
}

/// The first group of the fixed prefix that marks a Tor hidden-service
/// entry.
pub const ONION_0: u16 = 0xfd87;

/// The second group of the Tor prefix.
pub const ONION_1: u16 = 0xd87e;

/// The third group of the Tor prefix.
pub const ONION_2: u16 = 0xeb43;

/// The fixed three-group prefix that marks a Tor hidden-service entry.
pub open spec fn spec_onion_prefix(groups: Seq<u16>) -> bool {
    &&& groups.len() >= 3
    &&& groups[0] == ONION_0
    &&& groups[1] == ONION_1
    &&& groups[2] == ONION_2
}

/// Whether the eight groups carry an IPv4 address in its IPv6-mapped form:
/// the first five groups are zero and the sixth is the mapped-form marker.
pub open spec fn spec_v4_reducible(groups: Seq<u16>) -> bool
    recommends
        groups.len() == 8,
{
    &&& groups[0] == 0
    &&& groups[1] == 0
    &&& groups[2] == 0
    &&& groups[3] == 0
    &&& groups[4] == 0
    &&& groups[5] == 0xffff
}

/// The eight 16-bit groups that stand for a socket address: an IPv4 address
/// is mapped into IPv6 form, an IPv6 address keeps its groups.
pub open spec fn spec_mapped_groups(s: SocketAddress) -> Seq<u16> {
    match s {
        SocketAddress::V4 { ip, port } => seq![
            0u16,
            0u16,
            0u16,
            0u16,
            0u16,
            0xffffu16,
            ((ip@[0] as u16) << 8) | (ip@[1] as u16),
            ((ip@[2] as u16) << 8) | (ip@[3] as u16),
        ],
        SocketAddress::V6 { groups, port } => groups@,
    }
}

/// What extracting a socket address from an address entry reports: the Tor
/// prefix fails as unavailable, a group sequence in the IPv4-mapped shape is
/// reduced to its IPv4 address, and anything else is reported as IPv6
/// unchanged.
pub open spec fn spec_socket_result(a: AddressView, r: Result<
    SocketAddress,
    AddressError,
>) -> bool
    recommends
        a.address.len() == 8,
{
    if spec_onion_prefix(a.address) {
        r == Err::<SocketAddress, AddressError>(AddressError::AddrNotAvailable)
    } else if spec_v4_reducible(a.address) {
        &&& r matches Ok(s)
        &&& s matches SocketAddress::V4 { ip, port }
        &&& ip@ == seq![
            (a.address[6] >> 8) as u8,
            (a.address[6] & 0xff) as u8,
            (a.address[7] >> 8) as u8,
            (a.address[7] & 0xff) as u8,
        ]
        &&& port == a.port
    } else {
        &&& r matches Ok(s)
        &&& s matches SocketAddress::V6 { groups, port }
        &&& groups@ == a.address
        &&& port == a.port
    }
}

impl Address {
    /// Builds the address entry for a socket: an IPv4 socket is stored in its
    /// IPv6-mapped form, an IPv6 socket keeps its groups.
    pub fn new(socket: &SocketAddress, services: u64) -> (r: Address)
        ensures
            r@.services == services,
            r@.address == spec_mapped_groups(*socket),
            r@.port == socket.spec_port(),
    {
        match socket {
            SocketAddress::V4 { ip, port } => {
                let hi = ((ip[0] as u16) << 8) | (ip[1] as u16);
                let lo = ((ip[2] as u16) << 8) | (ip[3] as u16);
                let r = Address {
                    services,
                    address: [0, 0, 0, 0, 0, 0xffff, hi, lo],
                    port: *port,
                };
                proof {
                    assert(r@.address =~= spec_mapped_groups(*socket));
                }
                r
            },
            SocketAddress::V6 { groups, port } => Address {
                services,
                address: *groups,
                port: *port,
            },
        }
    }

    /// Extracts the socket address of this entry. A Tor hidden-service entry
    /// has none and is reported unavailable; groups in the IPv4-mapped shape
    /// are reduced to an IPv4 socket address; every other entry is reported
    /// as IPv6 unchanged.
    pub fn socket_addr(&self) -> (r: Result<SocketAddress, AddressError>)
        ensures
            spec_socket_result(self@, r),
    {
        if self.address[0] == ONION_0 && self.address[1] == ONION_1 && self.address[2] == ONION_2 {
            return Err(AddressError::AddrNotAvailable);
        }
        if self.address[0] == 0 && self.address[1] == 0 && self.address[2] == 0 && self.address[3]
            == 0 && self.address[4] == 0 && self.address[5] == 0xffff {
            let g6 = self.address[6];
            let g7 = self.address[7];
            assert(g6 >> 8 < 256 && g6 & 0xff < 256 && g7 >> 8 < 256 && g7 & 0xff < 256)
                by (bit_vector);
            let ip: [u8; 4] = [(g6 >> 8) as u8, (g6 & 0xff) as u8, (g7 >> 8) as u8, (g7
                & 0xff) as u8];
            let r = Ok(SocketAddress::V4 { ip, port: self.port });
            proof {
                assert(ip@ =~= seq![
                    (self@.address[6] >> 8) as u8,
                    (self@.address[6] & 0xff) as u8,
                    (self@.address[7] >> 8) as u8,
                    (self@.address[7] & 0xff) as u8,
                ]);
            }
            r
        } else {
            Ok(SocketAddress::V6 { groups: self.address, port: self.port })
        }
    }
}

/// Swaps each 16-bit group into big-endian order, so that the shared
/// little-endian integer layout emits the groups big-endian.
pub fn addr_to_be(addr: [u16; 8]) -> (r: [u16; 8])
    ensures
        forall|i: int| 0 <= i < 8 ==> r@[i] == spec_swap16(addr@[i]),
{
    [
        swap16(addr[0]),
        swap16(addr[1]),
        swap16(addr[2]),
        swap16(addr[3]),
        swap16(addr[4]),
        swap16(addr[5]),
        swap16(addr[6]),
        swap16(addr[7]),
    ]
}

/// Swaps the two bytes of one group.
pub fn swap16(x: u16) -> (r: u16)
    ensures
        r == spec_swap16(x),
{
    (x >> 8) | (x << 8)
}

/// The 26-byte wire form of an address entry: services little-endian, then
/// the eight groups and the port big-endian.
pub open spec fn spec_address_bytes(a: AddressView) -> Seq<u8>
    recommends
        a.address.len() == 8,
{
    spec_u64_le(a.services) + spec_u16_be(a.address[0]) + spec_u16_be(a.address[1]) + spec_u16_be(
        a.address[2],
    ) + spec_u16_be(a.address[3]) + spec_u16_be(a.address[4]) + spec_u16_be(a.address[5])
        + spec_u16_be(a.address[6]) + spec_u16_be(a.address[7]) + spec_u16_be(a.port)
}

/// Reads an address entry back from the first 26 bytes of `b`.
pub open spec fn spec_read_address(b: Seq<u8>) -> AddressView
    recommends
        b.len() >= 26,
{
    AddressView {
        services: spec_u64_from_le(b.subrange(0, 8)),
        address: Seq::new(8, |i: int| spec_u16_from_be(b.subrange(8 + 2 * i, 10 + 2 * i))),
        port: spec_u16_from_be(b.subrange(24, 26)),
    }
}

impl Address {
    /// Appends the 26-byte wire form of this entry to `out`.
    pub fn encode(&self, out: &mut Vec<u8>)
        ensures
            final(out)@ == old(out)@ + spec_address_bytes(self@),
    {
        push_u64_le(out, self.services);
        let be = addr_to_be(self.address);
        push_u16_le(out, be[0]);
        push_u16_le(out, be[1]);
        push_u16_le(out, be[2]);
        push_u16_le(out, be[3]);
        push_u16_le(out, be[4]);
        push_u16_le(out, be[5]);
        push_u16_le(out, be[6]);
        push_u16_le(out, be[7]);
        let pbe = swap16(self.port);
        push_u16_le(out, pbe);
        proof {
            assert forall|i: int| 0 <= i < 8 implies spec_u16_le(spec_swap16(self.address@[i]))
                == spec_u16_be(self.address@[i]) by {
                lemma_swapped_le_is_be(self.address@[i]);
            }
            lemma_swapped_le_is_be(self.port);
            assert(out@ =~= old(out)@ + spec_address_bytes(self@));
        }
    }

    /// Reads the address entry whose 26-byte wire form starts at `pos`.
    pub fn decode(b: &[u8], pos: usize) -> (r: Address)
        requires
            pos + 26 <= b@.len(),
        ensures
            r@ == spec_read_address(b@.skip(pos as int)),
    {
        let n = b.len();
        proof {
            assert(pos + 26 <= n);
        }
        let services = read_u64_le(b, pos);
        let mut groups: [u16; 8] = [0; 8];
        groups[0] = read_u16_be(b, pos + 8);
        groups[1] = read_u16_be(b, pos + 10);
        groups[2] = read_u16_be(b, pos + 12);
        groups[3] = read_u16_be(b, pos + 14);
        groups[4] = read_u16_be(b, pos + 16);
        groups[5] = read_u16_be(b, pos + 18);
        groups[6] = read_u16_be(b, pos + 20);
        groups[7] = read_u16_be(b, pos + 22);
        let port = read_u16_be(b, pos + 24);
        let r = Address { services, address: groups, port };
        proof {
            let tail = b@.skip(pos as int);
            assert(tail.subrange(0, 8) =~= b@.subrange(pos as int, pos as int + 8));
            assert(tail.subrange(24, 26) =~= b@.subrange(pos as int + 24, pos as int + 26));
            assert forall|i: int| 0 <= i < 8 implies #[trigger] spec_read_address(tail).address[i]
                == r@.address[i] by {
                assert(tail.subrange(8 + 2 * i, 10 + 2 * i) =~= b@.subrange(
                    pos as int + 8 + 2 * i,
                    pos as int + 10 + 2 * i,
                ));
            }
            assert(r@.address =~= spec_read_address(tail).address);
            assert(r@ =~= spec_read_address(tail));
        }
        r
    }

    /// Reads the address entry at `pos` where the buffer holds its full 26
    /// bytes, and reports nothing where it is truncated: a truncated buffer
    /// is a recoverable condition the caller decides on.
    pub fn try_decode(b: &[u8], pos: usize) -> (r: Option<Address>)
        ensures
            r is Some <==> pos + 26 <= b@.len(),
            r matches Some(a) ==> a@ == spec_read_address(b@.skip(pos as int)),
    {
        if pos <= b.len() && b.len() - pos >= 26 {
            Some(Address::decode(b, pos))
        } else {
            None
        }
    }
}

/// Reading an address entry touches only the first 26 bytes: buffers that
/// agree there read the same entry.
pub proof fn lemma_read_address_prefix(b1: Seq<u8>, b2: Seq<u8>)
    requires
        b1.len() >= 26,
        b2.len() >= 26,
        b1.subrange(0, 26) == b2.subrange(0, 26),
    ensures
        spec_read_address(b1) == spec_read_address(b2),
{
    assert forall|i: int| 0 <= i < 26 implies b1[i] == b2[i] by {
        assert(b1[i] == b1.subrange(0, 26)[i]);
        assert(b2[i] == b2.subrange(0, 26)[i]);
        assert(b1.subrange(0, 26)[i] == b2.subrange(0, 26)[i]);
    }
    assert(b1.subrange(0, 8) =~= b2.subrange(0, 8));
    assert(b1.subrange(24, 26) =~= b2.subrange(24, 26));
    assert forall|i: int| 0 <= i < 8 implies #[trigger] spec_read_address(b1).address[i]
        == spec_read_address(b2).address[i] by {
        assert(b1.subrange(8 + 2 * i, 10 + 2 * i) =~= b2.subrange(8 + 2 * i, 10 + 2 * i));
    }
    assert(spec_read_address(b1).address =~= spec_read_address(b2).address);
    assert(spec_read_address(b1) =~= spec_read_address(b2));
}

/// Reading an encoded address entry back yields the entry, whatever follows
/// its 26 bytes.
pub proof fn lemma_address_round_trip(a: AddressView, rest: Seq<u8>)
    requires
        a.address.len() == 8,
    ensures
        spec_address_bytes(a).len() == 26,
        spec_read_address(spec_address_bytes(a) + rest) == a,
{
    let bytes = spec_address_bytes(a) + rest;
    lemma_u64_le_round_trip();
    lemma_u16_be_round_trip();
    assert(bytes.subrange(0, 8) =~= spec_u64_le(a.services));
    assert(bytes.subrange(24, 26) =~= spec_u16_be(a.port));
    let read = spec_read_address(bytes);
    assert forall|i: int| 0 <= i < 8 implies read.address[i] == a.address[i] by {
        assert(bytes.subrange(8 + 2 * i, 10 + 2 * i) =~= spec_u16_be(a.address[i]));
    }
    assert(read.address =~= a.address);
    assert(read =~= a);
}

/// Re-encoding an address entry that was read from 26 bytes reproduces the
/// bytes.
pub proof fn lemma_address_bytes_of_read(b: Seq<u8>)
    requires
        b.len() == 26,
    ensures
        spec_address_bytes(spec_read_address(b)) == b,
{
    let a = spec_read_address(b);
    lemma_u64_le_round_trip();
    lemma_u16_be_round_trip();
    assert(spec_u64_le(a.services) == b.subrange(0, 8)) by {
        assert(b.subrange(0, 8).len() == 8);
    }
    assert forall|i: int| 0 <= i < 8 implies spec_u16_be(a.address[i]) == b.subrange(
        8 + 2 * i,
        10 + 2 * i,
    ) by {
        assert(b.subrange(8 + 2 * i, 10 + 2 * i).len() == 2);
    }
    assert(spec_u16_be(a.port) == b.subrange(24, 26)) by {
        assert(b.subrange(24, 26).len() == 2);
    }
    assert(spec_address_bytes(a) =~= b);
}

/// Round trip through the IPv6-mapped form: whatever the extractor reports
/// for the entry built from an IPv4 socket address is that socket address.
pub proof fn lemma_socket_round_trip_v4(
    s: SocketAddress,
    services: u64,
    r: Result<SocketAddress, AddressError>,
)
    requires
        s matches SocketAddress::V4 { .. },
        spec_socket_result(
            AddressView { services, address: spec_mapped_groups(s), port: s.spec_port() },
            r,
        ),
    ensures
        r == Ok::<SocketAddress, AddressError>(s),
{
    let groups = spec_mapped_groups(s);
    match s {
        SocketAddress::V4 { ip, port } => {
            let b0 = ip@[0];
            let b1 = ip@[1];
            let b2 = ip@[2];
            let b3 = ip@[3];
            assert((((b0 as u16) << 8 | (b1 as u16)) >> 8) as u8 == b0 && (((b0 as u16) << 8 | (
            b1 as u16)) & 0xff) as u8 == b1 && (((b2 as u16) << 8 | (b3 as u16)) >> 8) as u8 == b2
                && (((b2 as u16) << 8 | (b3 as u16)) & 0xff) as u8 == b3) by (bit_vector);
            let rs = r->Ok_0;
            match rs {
                SocketAddress::V4 { ip: ip2, port: port2 } => {
                    assert(ip2@ =~= ip@);
                    assert(ip2 == ip);
                },
                SocketAddress::V6 { .. } => {
                    assert(false);
                },
            }
        },
        SocketAddress::V6 { .. } => {},
    }
}

/// A native IPv6 socket address, one that neither bears the Tor prefix nor
/// is shaped like an IPv4-mapped address, comes back unchanged from the
/// extractor.
pub proof fn lemma_socket_round_trip_v6(
    s: SocketAddress,
    services: u64,
    r: Result<SocketAddress, AddressError>,
)
    requires
        s matches SocketAddress::V6 { groups, .. } && !spec_onion_prefix(groups@)
            && !spec_v4_reducible(groups@),
        spec_socket_result(
            AddressView { services, address: spec_mapped_groups(s), port: s.spec_port() },
            r,
        ),
    ensures
        r == Ok::<SocketAddress, AddressError>(s),
{
    match s {
        SocketAddress::V6 { groups, port } => {
            let rs = r->Ok_0;
            match rs {
                SocketAddress::V6 { groups: g2, port: p2 } => {
                    assert(g2@ =~= groups@);
                    assert(g2 == groups);
                },
                SocketAddress::V4 { .. } => {
                    assert(false);
                },
            }
        },
        SocketAddress::V4 { .. } => {},
    }
}

} // verus!
