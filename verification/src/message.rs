//! The message envelope: magic value, command identifier, payload length,
//! checksum and payload bytes, assembled into the final wire buffer, and the
//! inverse that splits a received buffer back into a typed message.

pub mod address;
pub mod command;
pub mod filterload;
pub mod getdata;
pub mod version;

use vstd::prelude::*;
use vstd::slice::{slice_subrange, slice_to_vec};
use crate::checksum::{sha_sha, spec_checksum};
use crate::codec::{push_u32_le, read_u32_le, spec_u32_from_le, spec_u32_le};
use crate::message::command::{spec_command_decoded, spec_command_encoded, CommandString};
use crate::message::filterload::FilterLoad;
use crate::message::getdata::GetData;
use crate::message::version::{
    spec_read_version, spec_version_bytes, VersionMessage, VersionMessageView,
};

verus! {

/// The network a message belongs to; each maps to a fixed 4-byte magic value.
#[derive(Clone, Copy, Debug, PartialEq, Eq, Structural)]
pub enum Magic {
    Main,
    Testnet,
}

/// The magic value of the main network; little-endian serialization puts it
/// on the wire as f9 be b4 d9.
pub const MAINNET_MAGIC: u32 = 0xd9b4bef9;

/// The magic value of the test network; on the wire as fa bf b5 da.
pub const TESTNET_MAGIC: u32 = 0xdab5bffa;

/// The magic value of a network selector, serialized little-endian as the
/// envelope's first four bytes.
pub open spec fn spec_magic_value(m: Magic) -> u32 {
    match m {
        Magic::Main => MAINNET_MAGIC,
        Magic::Testnet => TESTNET_MAGIC,
    }
}

/// A message body: one of the closed set of payload variants.
#[derive(Clone, Debug)]
pub enum Payload {
    /// The handshake offer.
    Version(VersionMessage),
    /// The handshake acknowledgement; it carries no bytes.
    Verack,
    /// A filter-load body, carried as raw bytes.
    FilterLoad(FilterLoad),
    /// An inventory request, carried as raw bytes.
    GetData(GetData),
}

/// The mathematical content of a [`Payload`].
#[verifier::ext_equal]
pub enum PayloadView {
    Version(VersionMessageView),
    Verack,
    FilterLoad(Seq<u8>),
    GetData(Seq<u8>),
}

impl View for Payload {
    type V = PayloadView;

    open spec fn view(&self) -> PayloadView {
        match self {
            Payload::Version(v) => PayloadView::Version(v@),
            Payload::Verack => PayloadView::Verack,
            Payload::FilterLoad(d) => PayloadView::FilterLoad(d.0@),
            Payload::GetData(d) => PayloadView::GetData(d.0@),
        }
    }
}

impl PartialEq for Payload {
    /// Equality is by variant and value.
    fn eq(&self, other: &Payload) -> (r: bool) {
        match (self, other) {
            (Payload::Version(a), Payload::Version(b)) => a == b,
            (Payload::Verack, Payload::Verack) => true,
            (Payload::FilterLoad(a), Payload::FilterLoad(b)) => a == b,
            (Payload::GetData(a), Payload::GetData(b)) => a == b,
            _ => false,
        }
    }
}

impl vstd::std_specs::cmp::PartialEqSpecImpl for Payload {
    open spec fn obeys_eq_spec() -> bool {
        true
    }

    open spec fn eq_spec(&self, other: &Payload) -> bool {
        self@ == other@
    }
}

impl Eq for Payload {}

impl PayloadView {
    /// The shape every payload built from executable parts has.
    pub open spec fn wf(self) -> bool {
        match self {
            PayloadView::Version(v) => v.wf(),
            _ => true,
        }
    }
}

/// The serialized payload bytes, or nothing for the payload-less
/// acknowledgement.
pub open spec fn spec_payload_data(p: PayloadView) -> Option<Seq<u8>> {
    match p {
        PayloadView::Version(v) => Some(spec_version_bytes(v)),
        PayloadView::Verack => None,
        PayloadView::FilterLoad(d) => Some(d),
        PayloadView::GetData(d) => Some(d),
    }
}

/// The bytes a payload contributes to the wire buffer: its serialized form,
/// or nothing at all for the acknowledgement.
pub open spec fn spec_payload_wire(p: PayloadView) -> Seq<u8> {
    match spec_payload_data(p) {
        Some(d) => d,
        None => Seq::empty(),
    }
}

impl Payload {
    /// Reports this payload's length, checksum and serialized bytes. The
    /// checksum of the payload-less acknowledgement is computed over the
    /// empty byte sequence.
    pub fn calc(&self) -> (r: (u32, Vec<u8>, Option<Vec<u8>>))
        requires
            spec_payload_wire(self@).len() <= 0xffffffff,
        ensures
            r.0 == spec_payload_wire(self@).len(),
            r.1@ == spec_checksum(spec_payload_wire(self@)),
            r.2 is Some <==> spec_payload_data(self@) is Some,
            r.2 matches Some(v) ==> spec_payload_data(self@) == Some(v@),
    {
        match self {
            Payload::Version(data) => {
                let mut ser: Vec<u8> = Vec::new();
                data.encode(&mut ser);
                proof {
                    assert(ser@ =~= spec_version_bytes(data@));
                }
                let len = ser.len();
                let checksum = sha_sha(ser.as_slice());
                (len as u32, checksum, Some(ser))
            },
            Payload::Verack => {
                let empty: Vec<u8> = Vec::new();
                let checksum = sha_sha(empty.as_slice());
                (0, checksum, None)
            },
            Payload::FilterLoad(data) => {
                let ser = slice_to_vec(data.0.as_slice());
                let len = ser.len();
                let checksum = sha_sha(ser.as_slice());
                (len as u32, checksum, Some(ser))
            },
            Payload::GetData(data) => {
                let ser = slice_to_vec(data.0.as_slice());
                let len = ser.len();
                let checksum = sha_sha(ser.as_slice());
                (len as u32, checksum, Some(ser))
            },
        }
    }
}

/// A message ready to be framed: network selector, command identifier and
/// payload. Length, checksum and payload bytes are always recomputed.
#[derive(Clone, Debug)]
pub struct RawMessage {
    magic: Magic,
    command: CommandString,
    payload: Payload,
}

/// The mathematical content of a [`RawMessage`].
#[verifier::ext_equal]
pub struct RawMessageView {
    pub magic: Magic,
    pub command: Seq<u8>,
    pub payload: PayloadView,
}

impl View for RawMessage {
    type V = RawMessageView;

    closed spec fn view(&self) -> RawMessageView {
        RawMessageView { magic: self.magic, command: self.command@, payload: self.payload@ }
    }
}

impl PartialEq for RawMessage {
    /// Equality is by value: selector, command and payload.
    fn eq(&self, other: &RawMessage) -> (r: bool) {
        let r = self.magic == other.magic && self.command == other.command && self.payload
            == other.payload;
        proof {
            if r {
                assert(self@ =~= other@);
            }
        }
        r
    }
}

impl vstd::std_specs::cmp::PartialEqSpecImpl for RawMessage {
    open spec fn obeys_eq_spec() -> bool {
        true
    }

    open spec fn eq_spec(&self, other: &RawMessage) -> bool {
        self@ == other@
    }
}

impl Eq for RawMessage {}

/// The full wire buffer of a message: magic, 12-byte command, little-endian
/// payload length, checksum, then the payload bytes, in that order and with
/// nothing else.
pub open spec fn spec_message_bytes(m: RawMessageView) -> Seq<u8>
    recommends
        m.command.len() <= 12,
        spec_payload_wire(m.payload).len() <= 0xffffffff,
{
    let wire = spec_payload_wire(m.payload);
    spec_u32_le(spec_magic_value(m.magic)) + spec_command_encoded(m.command) + spec_u32_le(
        wire.len() as u32,
    ) + spec_checksum(wire) + wire
}

impl RawMessage {
    /// Packs a network selector, a command identifier and a payload into a
    /// message awaiting framing.
    pub fn new(magic: Magic, command: CommandString, payload: Payload) -> (r: RawMessage)
        ensures
            r@ == (RawMessageView { magic, command: command@, payload: payload@ }),
    {
        RawMessage { magic, command, payload }
    }

    /// The magic value of this message's network selector.
    pub fn magic_num(&self) -> (r: u32)
        ensures
            r == spec_magic_value(self@.magic),
    {
        match self.magic {
            Magic::Main => MAINNET_MAGIC,
            Magic::Testnet => TESTNET_MAGIC,
        }
    }

    /// The network selector of this message.
    pub fn magic(&self) -> (r: Magic)
        ensures
            r == self@.magic,
    {
        self.magic
    }

    /// The command identifier of this message.
    pub fn command(&self) -> (r: &CommandString)
        ensures
            r@ == self@.command,
    {
        &self.command
    }

    /// The payload of this message.
    pub fn payload(&self) -> (r: &Payload)
        ensures
            r@ == self@.payload,
    {
        &self.payload
    }

    /// Assembles the complete wire buffer: magic, zero-padded command,
    /// payload length, checksum, then the payload bytes if the payload has
    /// any.
    pub fn combine(&self) -> (r: Vec<u8>)
        requires
            self@.command.len() <= 12,
            spec_payload_wire(self@.payload).len() <= 0xffffffff,
        ensures
            r@ == spec_message_bytes(self@),
    {
        let mut raw_bytes: Vec<u8> = Vec::new();
        push_u32_le(&mut raw_bytes, self.magic_num());
        let mut cmd = self.command.encode();
        raw_bytes.append(&mut cmd);
        let (len, mut checksum, payload) = self.payload.calc();
        push_u32_le(&mut raw_bytes, len);
        raw_bytes.append(&mut checksum);
        match payload {
            Some(mut data) => {
                raw_bytes.append(&mut data);
            },
            None => {},
        }
        proof {
            assert(raw_bytes@ =~= spec_message_bytes(self@));
        }
        raw_bytes
    }
}

/// Why a received buffer was rejected.
#[derive(Clone, Copy, Debug, PartialEq, Eq, Structural)]
pub enum DecodeError {
    /// The buffer is shorter than its header, or than the length its header
    /// announces.
    Truncated,
    /// The buffer goes on past the length its header announces.
    TrailingBytes,
    /// The magic value matches no known network.
    UnknownNetwork,
    /// The checksum recomputed over the payload bytes disagrees with the
    /// header.
    ChecksumMismatch,
    /// The decoded command names no known payload variant.
    UnknownCommand,
    /// The payload bytes are not a wire form the named variant accepts.
    MalformedPayload,
}

/// The command name that announces a handshake offer.
pub open spec fn spec_version_name() -> Seq<u8> {
    seq![0x76u8, 0x65, 0x72, 0x73, 0x69, 0x6f, 0x6e]
}

/// The command name that announces the acknowledgement.
pub open spec fn spec_verack_name() -> Seq<u8> {
    seq![0x76u8, 0x65, 0x72, 0x61, 0x63, 0x6b]
}

/// The command name that announces a filter-load body.
pub open spec fn spec_filterload_name() -> Seq<u8> {
    seq![0x66u8, 0x69, 0x6c, 0x74, 0x65, 0x72, 0x6c, 0x6f, 0x61, 0x64]
}

/// The command name that announces an inventory request.
pub open spec fn spec_getdata_name() -> Seq<u8> {
    seq![0x67u8, 0x65, 0x74, 0x64, 0x61, 0x74, 0x61]
}

/// What parsing a received buffer yields: the message it frames, or the
/// first failure in header order — truncation, unknown magic, a length
/// mismatch, a checksum mismatch, an unknown command, then a payload the
/// named variant rejects.
pub open spec fn spec_parse(b: Seq<u8>) -> Result<RawMessageView, DecodeError> {
    if b.len() < 24 {
        Err(DecodeError::Truncated)
    } else {
        let magic_val = spec_u32_from_le(b.subrange(0, 4));
        if magic_val != MAINNET_MAGIC && magic_val != TESTNET_MAGIC {
            Err(DecodeError::UnknownNetwork)
        } else {
            let magic = if magic_val == MAINNET_MAGIC {
                Magic::Main
            } else {
                Magic::Testnet
            };
            let command = spec_command_decoded(b.subrange(4, 16));
            let length = spec_u32_from_le(b.subrange(16, 20));
            if b.len() - 24 < length {
                Err(DecodeError::Truncated)
            } else if b.len() - 24 > length {
                Err(DecodeError::TrailingBytes)
            } else {
                let payload = b.skip(24);
                if b.subrange(20, 24) != spec_checksum(payload) {
                    Err(DecodeError::ChecksumMismatch)
                } else if command == spec_version_name() {
                    match spec_read_version(payload) {
                        Some(v) => Ok(
                            RawMessageView { magic, command, payload: PayloadView::Version(v) },
                        ),
                        None => Err(DecodeError::MalformedPayload),
                    }
                } else if command == spec_verack_name() {
                    if payload.len() == 0 {
                        Ok(RawMessageView { magic, command, payload: PayloadView::Verack })
                    } else {
                        Err(DecodeError::MalformedPayload)
                    }
                } else if command == spec_filterload_name() {
                    Ok(RawMessageView { magic, command, payload: PayloadView::FilterLoad(payload) })
                } else if command == spec_getdata_name() {
                    Ok(RawMessageView { magic, command, payload: PayloadView::GetData(payload) })
                } else {
                    Err(DecodeError::UnknownCommand)
                }
            }
        }
    }
}

/// Compares two byte strings for equality of their contents.
fn bytes_eq(a: &[u8], b: &[u8]) -> (r: bool)
    ensures
        r == (a@ == b@),
{
    if a.len() != b.len() {
        proof {
            if a@ == b@ {
                assert(a@.len() == b@.len());
            }
        }
        return false;
    }
    let n = a.len();
    let mut i: usize = 0;
    while i < n
        invariant
            0 <= i <= n,
            n == a@.len() == b@.len(),
            forall|j: int| 0 <= j < i ==> a@[j] == b@[j],
        decreases n - i,
    {
        if a[i] != b[i] {
            proof {
                assert(a@[i as int] != b@[i as int]);
            }
            return false;
        }
        i = i + 1;
    }
    proof {
        assert(a@ =~= b@);
    }
    true
}

/// The bytes of the handshake offer's command name.
fn version_name() -> (r: Vec<u8>)
    ensures
        r@ == spec_version_name(),
{
    let mut v: Vec<u8> = Vec::new();
    v.push(0x76);
    v.push(0x65);
    v.push(0x72);
    v.push(0x73);
    v.push(0x69);
    v.push(0x6f);
    v.push(0x6e);
    proof {
        assert(v@ =~= spec_version_name());
    }
    v
}

/// The bytes of the acknowledgement's command name.
fn verack_name() -> (r: Vec<u8>)
    ensures
        r@ == spec_verack_name(),
{
    let mut v: Vec<u8> = Vec::new();
    v.push(0x76);
    v.push(0x65);
    v.push(0x72);
    v.push(0x61);
    v.push(0x63);
    v.push(0x6b);
    proof {
        assert(v@ =~= spec_verack_name());
    }
    v
}

/// The bytes of the filter-load command name.
fn filterload_name() -> (r: Vec<u8>)
    ensures
        r@ == spec_filterload_name(),
{
    let mut v: Vec<u8> = Vec::new();
    v.push(0x66);
    v.push(0x69);
    v.push(0x6c);
    v.push(0x74);
    v.push(0x65);
    v.push(0x72);
    v.push(0x6c);
    v.push(0x6f);
    v.push(0x61);
    v.push(0x64);
    proof {
        assert(v@ =~= spec_filterload_name());
    }
    v
}

/// The bytes of the inventory-request command name.
fn getdata_name() -> (r: Vec<u8>)
    ensures
        r@ == spec_getdata_name(),
{
    let mut v: Vec<u8> = Vec::new();
    v.push(0x67);
    v.push(0x65);
    v.push(0x74);
    v.push(0x64);
    v.push(0x61);
    v.push(0x74);
    v.push(0x61);
    proof {
        assert(v@ =~= spec_getdata_name());
    }
    v
}

/// Splits a received buffer into magic, command, length, checksum and
/// payload, validates each, and hands back the typed message or the first
/// failure.
#[verifier::spinoff_prover]
#[verifier::rlimit(100)]
pub fn parse(bytes: &[u8]) -> (r: Result<RawMessage, DecodeError>)
    ensures
        r matches Ok(m) ==> spec_parse(bytes@) == Ok::<RawMessageView, DecodeError>(m@),
        r matches Err(e) ==> spec_parse(bytes@) == Err::<RawMessageView, DecodeError>(e),
        r matches Ok(m) ==> m@.command.len() <= 12 && spec_payload_wire(m@.payload).len()
            <= 0xffffffff && m@.payload.wf(),
{
    let n = bytes.len();
    if n < 24 {
        return Err(DecodeError::Truncated);
    }
    let magic_val = read_u32_le(bytes, 0);
    let magic = if magic_val == MAINNET_MAGIC {
        Magic::Main
    } else if magic_val == TESTNET_MAGIC {
        Magic::Testnet
    } else {
        return Err(DecodeError::UnknownNetwork);
    };
    let cmd_raw = slice_subrange(bytes, 4, 16);
    let command = CommandString::decode(cmd_raw);
    proof {
        command::lemma_decoded_len(bytes@.subrange(4, 16));
    }
    let length = read_u32_le(bytes, 16);
    let body_len = n - 24;
    if (body_len as u64) < (length as u64) {
        return Err(DecodeError::Truncated);
    }
    if (body_len as u64) > (length as u64) {
        return Err(DecodeError::TrailingBytes);
    }
    let payload_bytes = slice_subrange(bytes, 24, n);
    proof {
        assert(payload_bytes@ =~= bytes@.skip(24));
    }
    let computed = sha_sha(payload_bytes);
    let header_checksum = slice_subrange(bytes, 20, 24);
    if !bytes_eq(computed.as_slice(), header_checksum) {
        return Err(DecodeError::ChecksumMismatch);
    }
    let vname = version_name();
    let aname = verack_name();
    let fname = filterload_name();
    let gname = getdata_name();
    if bytes_eq(command.0.as_slice(), vname.as_slice()) {
        match VersionMessage::decode(payload_bytes) {
            Some(v) => Ok(RawMessage { magic, command, payload: Payload::Version(v) }),
            None => Err(DecodeError::MalformedPayload),
        }
    } else if bytes_eq(command.0.as_slice(), aname.as_slice()) {
        if length == 0 {
            Ok(RawMessage { magic, command, payload: Payload::Verack })
        } else {
            Err(DecodeError::MalformedPayload)
        }
    } else if bytes_eq(command.0.as_slice(), fname.as_slice()) {
        Ok(
            RawMessage {
                magic,
                command,
                payload: Payload::FilterLoad(FilterLoad(slice_to_vec(payload_bytes))),
            },
        )
    } else if bytes_eq(command.0.as_slice(), gname.as_slice()) {
        Ok(
            RawMessage {
                magic,
                command,
                payload: Payload::GetData(GetData(slice_to_vec(payload_bytes))),
            },
        )
    } else {
        Err(DecodeError::UnknownCommand)
    }
}

} // verus!
