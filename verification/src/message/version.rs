//! The handshake offer message: protocol version, services, timestamp, the
//! two peer addresses, nonce, reserved byte, user agent, chain height and
//! relay flag, serialized in field declaration order.

use vstd::prelude::*;
use vstd::slice::{slice_subrange, slice_to_vec};
use crate::codec::{
    lemma_u32_le_round_trip, lemma_u64_le_round_trip, lemma_varint_canonical,
    lemma_varint_round_trip, push_u32_le, push_u64_le, push_varint, read_u32_le, read_u64_le,
    read_varint, spec_read_varint, spec_u32_from_le, spec_u32_le, spec_u64_from_le, spec_u64_le,
    spec_varint,
};
use crate::message::address::{
    lemma_address_bytes_of_read, lemma_address_round_trip, lemma_read_address_prefix, Address,
    AddressView, spec_address_bytes, spec_read_address,
};

verus! {

/// The handshake offer.
#[derive(Clone, Debug)]
pub struct VersionMessage {
    /// The peer-to-peer network protocol version.
    pub version: u32,
    /// A bitmask describing the services supported by this node.
    pub services: u64,
    /// The time at which the message was sent.
    pub timestamp: i64,
    /// The network address of the peer receiving the message.
    pub receiver: Address,
    /// The network address of the peer sending the message.
    pub sender: Address,
    /// A random nonce used to detect loops in the network.
    pub nonce: u64,
    /// A reserved byte sent between the nonce and the user agent.
    pub bytes: u8,
    /// The bytes of a string describing the peer's software.
    pub user_agent: Vec<u8>,
    /// The height of the maximum-work chain that the peer is aware of.
    pub start_height: i32,
    /// Whether the receiving peer should relay messages to the sender.
    pub relay: bool,
}

/// The mathematical content of a [`VersionMessage`].
#[verifier::ext_equal]
pub struct VersionMessageView {
    pub version: u32,
    pub services: u64,
    pub timestamp: i64,
    pub receiver: AddressView,
    pub sender: AddressView,
    pub nonce: u64,
    pub bytes: u8,
    pub user_agent: Seq<u8>,
    pub start_height: i32,
    pub relay: bool,
}

impl View for VersionMessage {
    type V = VersionMessageView;

    open spec fn view(&self) -> VersionMessageView {
        VersionMessageView {
            version: self.version,
            services: self.services,
            timestamp: self.timestamp,
            receiver: self.receiver@,
            sender: self.sender@,
            nonce: self.nonce,
            bytes: self.bytes,
            user_agent: self.user_agent@,
            start_height: self.start_height,
            relay: self.relay,
        }
    }
}

impl VersionMessageView {
    /// The shape every message built from executable parts has: eight address
    /// groups on each side, and a user agent whose length has a compact
    /// encoding.
    pub open spec fn wf(self) -> bool {
        &&& self.receiver.address.len() == 8
        &&& self.sender.address.len() == 8
        &&& self.user_agent.len() <= u64::MAX
    }
}

impl PartialEq for VersionMessage {
    /// Equality is by value, field for field.
    fn eq(&self, other: &VersionMessage) -> (r: bool) {
        let r = self.version == other.version && self.services == other.services && self.timestamp
            == other.timestamp && self.receiver == other.receiver && self.sender == other.sender
            && self.nonce == other.nonce && self.bytes == other.bytes && self.user_agent
            == other.user_agent && self.start_height == other.start_height && self.relay
            == other.relay;
        proof {
            if r {
                assert(self.user_agent@ =~= other.user_agent@);
                assert(self@ =~= other@);
            }
        }
        r
    }
}

impl vstd::std_specs::cmp::PartialEqSpecImpl for VersionMessage {
    open spec fn obeys_eq_spec() -> bool {
        true
    }

    open spec fn eq_spec(&self, other: &VersionMessage) -> bool {
        self@ == other@
    }
}

impl Eq for VersionMessage {}

impl VersionMessage {
    /// Constructs a handshake offer with the fixed protocol version this
    /// library speaks, and the relay flag cleared.
    pub fn new(
        services: u64,
        timestamp: i64,
        receiver: Address,
        sender: Address,
        nonce: u64,
        bytes: u8,
        user_agent: Vec<u8>,
        start_height: i32,
    ) -> (r: VersionMessage)
        ensures
            r@ == (VersionMessageView {
                version: 70001u32,
                services,
                timestamp,
                receiver: receiver@,
                sender: sender@,
                nonce,
                bytes,
                user_agent: user_agent@,
                start_height,
                relay: false,
            }),
    {
        VersionMessage {
            version: 70001,
            services,
            timestamp,
            receiver,
            sender,
            nonce,
            bytes,
            user_agent,
            start_height,
            relay: false,
        }
    }
}

/// The wire form of a handshake offer: every field in declaration order, the
/// user agent length-prefixed, the relay flag as one byte.
pub open spec fn spec_version_bytes(v: VersionMessageView) -> Seq<u8>
    recommends
        v.wf(),
{
    spec_u32_le(v.version) + spec_u64_le(v.services) + spec_u64_le(v.timestamp as u64)
        + spec_address_bytes(v.receiver) + spec_address_bytes(v.sender) + spec_u64_le(v.nonce)
        + seq![v.bytes] + spec_varint(v.user_agent.len() as u64) + v.user_agent + spec_u32_le(
        v.start_height as u32,
    ) + seq![if v.relay { 1u8 } else { 0u8 }]
}

/// Reads a handshake offer back from its wire form. The whole of `b` must be
/// consumed, the length prefix must be in its shortest form, and the relay
/// byte must be zero or one; anything else is rejected.
pub open spec fn spec_read_version(b: Seq<u8>) -> Option<VersionMessageView> {
    if b.len() < 81 {
        None
    } else {
        match spec_read_varint(b.skip(81)) {
            None => None,
            Some((ua_len, c)) => {
                let ua_start = 81 + c;
                if b.len() != ua_start + ua_len + 5 {
                    None
                } else {
                    let relay_byte = b[b.len() - 1];
                    if relay_byte == 0 || relay_byte == 1 {
                        Some(
                            VersionMessageView {
                                version: spec_u32_from_le(b.subrange(0, 4)),
                                services: spec_u64_from_le(b.subrange(4, 12)),
                                timestamp: spec_u64_from_le(b.subrange(12, 20)) as i64,
                                receiver: spec_read_address(b.skip(20)),
                                sender: spec_read_address(b.skip(46)),
                                nonce: spec_u64_from_le(b.subrange(72, 80)),
                                bytes: b[80],
                                user_agent: b.subrange(ua_start, ua_start + ua_len),
                                start_height: spec_u32_from_le(
                                    b.subrange(b.len() - 5, b.len() - 1),
                                ) as i32,
                                relay: relay_byte == 1,
                            },
                        )
                    } else {
                        None
                    }
                }
            },
        }
    }
}

impl VersionMessage {
    /// Appends the wire form of this handshake offer to `out`.
    pub fn encode(&self, out: &mut Vec<u8>)
        ensures
            final(out)@ == old(out)@ + spec_version_bytes(self@),
    {
        push_u32_le(out, self.version);
        push_u64_le(out, self.services);
        push_u64_le(out, #[verifier::truncate] (self.timestamp as u64));
        self.receiver.encode(out);
        self.sender.encode(out);
        push_u64_le(out, self.nonce);
        out.push(self.bytes);
        push_varint(out, self.user_agent.len() as u64);
        let mut ua = slice_to_vec(self.user_agent.as_slice());
        out.append(&mut ua);
        push_u32_le(out, #[verifier::truncate] (self.start_height as u32));
        out.push(if self.relay { 1 } else { 0 });
        proof {
            assert(out@ =~= old(out)@ + spec_version_bytes(self@));
        }
    }

    /// Reads a handshake offer back from `b`, or nothing where `b` is not
    /// exactly the wire form of one.
    pub fn decode(b: &[u8]) -> (r: Option<VersionMessage>)
        ensures
            match r {
                Some(v) => spec_read_version(b@) == Some(v@) && v@.wf(),
                None => spec_read_version(b@) is None,
            },
    {
        let n = b.len();
        if n < 81 {
            return None;
        }
        match read_varint(b, 81) {
            None => None,
            Some((ua_len, c)) => {
                let ua_start = 81 + c;
                if n - ua_start < 5 {
                    return None;
                }
                let avail = n - ua_start - 5;
                if ua_len != avail as u64 {
                    return None;
                }
                let relay_byte = b[n - 1];
                if relay_byte > 1 {
                    return None;
                }
                let version = read_u32_le(b, 0);
                let services = read_u64_le(b, 4);
                let timestamp_bits = read_u64_le(b, 12);
                let receiver = Address::decode(b, 20);
                let sender = Address::decode(b, 46);
                let nonce = read_u64_le(b, 72);
                let bytes_field = b[80];
                let user_agent = slice_to_vec(slice_subrange(b, ua_start, n - 5));
                let start_height_bits = read_u32_le(b, n - 5);
                let v = VersionMessage {
                    version,
                    services,
                    timestamp: #[verifier::truncate] (timestamp_bits as i64),
                    receiver,
                    sender,
                    nonce,
                    bytes: bytes_field,
                    user_agent,
                    start_height: #[verifier::truncate] (start_height_bits as i32),
                    relay: relay_byte == 1,
                };
                proof {
                    let bs = b@;
                    let read = spec_read_version(bs)->Some_0;
                    assert(bs.subrange(ua_start as int, n - 5) =~= bs.subrange(
                        81 + c,
                        81 + c + ua_len,
                    ));
                    assert(v@ =~= read);
                }
                Some(v)
            },
        }
    }
}

/// Reading an encoded handshake offer back yields the offer.
#[verifier::spinoff_prover]
#[verifier::rlimit(100)]
pub proof fn lemma_version_round_trip(v: VersionMessageView)
    requires
        v.wf(),
    ensures
        spec_read_version(spec_version_bytes(v)) == Some(v),
{
    let b = spec_version_bytes(v);
    let ua_len = v.user_agent.len() as u64;
    let marker = spec_varint(ua_len);
    let c = marker.len() as int;
    let after_ua: Seq<u8> = spec_u32_le(v.start_height as u32) + seq![
        if v.relay {
            1u8
        } else {
            0u8
        },
    ];
    let tail81: Seq<u8> = marker + (v.user_agent + after_ua);
    assert(spec_address_bytes(v.receiver).len() == 26);
    assert(spec_address_bytes(v.sender).len() == 26);
    assert(b.len() == 81 + c + ua_len + 5);
    assert(b.skip(81) =~= tail81);
    lemma_varint_round_trip(ua_len, v.user_agent + after_ua);
    assert(spec_read_varint(b.skip(81)) == Some((ua_len, c)));
    let ua_start = 81 + c;
    assert(b[b.len() - 1] == (if v.relay {
        1u8
    } else {
        0u8
    }));
    let read = spec_read_version(b)->Some_0;
    lemma_u32_le_round_trip();
    lemma_u64_le_round_trip();
    assert(b.subrange(0, 4) =~= spec_u32_le(v.version));
    assert(b.subrange(4, 12) =~= spec_u64_le(v.services));
    assert(b.subrange(12, 20) =~= spec_u64_le(v.timestamp as u64));
    assert(((v.timestamp as u64) as i64) == v.timestamp) by {
        let t = v.timestamp;
        assert(((t as u64) as i64) == t) by (bit_vector);
    }
    assert(b.skip(20) =~= spec_address_bytes(v.receiver) + b.skip(46));
    lemma_address_round_trip(v.receiver, b.skip(46));
    assert(b.skip(46) =~= spec_address_bytes(v.sender) + b.skip(72));
    lemma_address_round_trip(v.sender, b.skip(72));
    assert(b.subrange(72, 80) =~= spec_u64_le(v.nonce));
    assert(b[80] == v.bytes);
    assert(b.subrange(ua_start, ua_start + ua_len) =~= v.user_agent);
    assert(b.subrange(b.len() - 5, b.len() - 1) =~= spec_u32_le(v.start_height as u32));
    assert(((v.start_height as u32) as i32) == v.start_height) by {
        let h = v.start_height;
        assert(((h as u32) as i32) == h) by (bit_vector);
    }
    assert(read =~= v);
}

/// Re-encoding a handshake offer that was read reproduces the bytes it was
/// read from: the reader accepts exactly one wire form per offer.
#[verifier::spinoff_prover]
#[verifier::rlimit(100)]
pub proof fn lemma_version_bytes_of_read(b: Seq<u8>)
    requires
        spec_read_version(b) is Some,
    ensures
        spec_version_bytes(spec_read_version(b)->Some_0) == b,
        spec_read_version(b)->Some_0.wf(),
{
    let v = spec_read_version(b)->Some_0;
    let (ua_len, c) = spec_read_varint(b.skip(81))->Some_0;
    let ua_start = 81 + c;
    lemma_u32_le_round_trip();
    lemma_u64_le_round_trip();
    lemma_varint_canonical(b.skip(81));
    assert(1 <= c <= 9);
    assert(0 <= ua_len);
    assert(b.len() == ua_start + ua_len + 5);
    assert(((spec_u64_from_le(b.subrange(12, 20)) as i64) as u64) == spec_u64_from_le(
        b.subrange(12, 20),
    )) by {
        let y = spec_u64_from_le(b.subrange(12, 20));
        assert(((y as i64) as u64) == y) by (bit_vector);
    }
    assert(((spec_u32_from_le(b.subrange(b.len() - 5, b.len() - 1)) as i32) as u32)
        == spec_u32_from_le(b.subrange(b.len() - 5, b.len() - 1))) by {
        let y = spec_u32_from_le(b.subrange(b.len() - 5, b.len() - 1));
        assert(((y as i32) as u32) == y) by (bit_vector);
    }
    assert(spec_u32_le(v.version) == b.subrange(0, 4)) by {
        assert(b.subrange(0, 4).len() == 4);
    }
    assert(spec_u64_le(v.services) == b.subrange(4, 12)) by {
        assert(b.subrange(4, 12).len() == 8);
    }
    assert(spec_u64_le(v.timestamp as u64) == b.subrange(12, 20)) by {
        assert(b.subrange(12, 20).len() == 8);
    }
    assert(b.skip(20).subrange(0, 26) =~= b.subrange(20, 46));
    assert(b.subrange(20, 46).subrange(0, 26) =~= b.subrange(20, 46));
    lemma_read_address_prefix(b.skip(20), b.subrange(20, 46));
    lemma_address_bytes_of_read(b.subrange(20, 46));
    assert(spec_address_bytes(v.receiver) == b.subrange(20, 46));
    assert(b.skip(46).subrange(0, 26) =~= b.subrange(46, 72));
    assert(b.subrange(46, 72).subrange(0, 26) =~= b.subrange(46, 72));
    lemma_read_address_prefix(b.skip(46), b.subrange(46, 72));
    lemma_address_bytes_of_read(b.subrange(46, 72));
    assert(spec_address_bytes(v.sender) == b.subrange(46, 72));
    assert(spec_u64_le(v.nonce) == b.subrange(72, 80)) by {
        assert(b.subrange(72, 80).len() == 8);
    }
    assert(seq![v.bytes] =~= b.subrange(80, 81));
    assert(v.user_agent.len() == ua_len);
    assert(v.user_agent.len() <= u64::MAX);
    assert((v.user_agent.len() as u64) == ua_len);
    assert(spec_varint(ua_len) == b.skip(81).subrange(0, c));
    assert(b.skip(81).subrange(0, c) =~= b.subrange(81, ua_start));
    assert(v.user_agent == b.subrange(ua_start, b.len() - 5));
    assert(spec_u32_le(v.start_height as u32) == b.subrange(b.len() - 5, b.len() - 1)) by {
        assert(b.subrange(b.len() - 5, b.len() - 1).len() == 4);
    }
    assert(seq![
        if v.relay {
            1u8
        } else {
            0u8
        },
    ] =~= b.subrange(b.len() - 1, b.len() as int));
    assert(v.receiver.address.len() == 8);
    assert(v.sender.address.len() == 8);
    assert(spec_version_bytes(v) =~= b);
}

} // verus!
