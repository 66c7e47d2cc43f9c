//! Library-wide laws of the framing layer: assembling then parsing
//! reproduces a message, and parsing then re-assembling reproduces the
//! received bytes.

use vstd::prelude::*;
use crate::checksum::spec_checksum;
use crate::codec::{lemma_u32_le_round_trip, spec_u32_from_le, spec_u32_le};
use crate::message::command::{
    lemma_command_round_trip, spec_command_decoded, spec_command_encoded,
};
use crate::message::version::{lemma_version_bytes_of_read, lemma_version_round_trip};
use crate::message::{
    spec_filterload_name, spec_getdata_name, spec_magic_value, spec_message_bytes, spec_parse,
    spec_payload_wire, spec_verack_name, spec_version_name, DecodeError, Magic, PayloadView,
    RawMessageView, MAINNET_MAGIC,
};

verus! {

/// The command name that announces each payload variant.
pub open spec fn spec_command_for(p: PayloadView) -> Seq<u8> {
    match p {
        PayloadView::Version(_) => spec_version_name(),
        PayloadView::Verack => spec_verack_name(),
        PayloadView::FilterLoad(_) => spec_filterload_name(),
        PayloadView::GetData(_) => spec_getdata_name(),
    }
}

/// Every known command name is at most 12 bytes and holds no zero byte.
pub proof fn lemma_known_names_wf(name: Seq<u8>)
    requires
        name == spec_version_name() || name == spec_verack_name() || name
            == spec_filterload_name() || name == spec_getdata_name(),
    ensures
        name.len() <= 12,
        forall|i: int| 0 <= i < name.len() ==> name[i] != 0,
{
    if name == spec_version_name() {
        assert forall|i: int| 0 <= i < name.len() implies name[i] != 0 by {
            assert(spec_version_name()[i] != 0);
        }
    } else if name == spec_verack_name() {
        assert forall|i: int| 0 <= i < name.len() implies name[i] != 0 by {
            assert(spec_verack_name()[i] != 0);
        }
    } else if name == spec_filterload_name() {
        assert forall|i: int| 0 <= i < name.len() implies name[i] != 0 by {
            assert(spec_filterload_name()[i] != 0);
        }
    } else {
        assert forall|i: int| 0 <= i < name.len() implies name[i] != 0 by {
            assert(spec_getdata_name()[i] != 0);
        }
    }
}

/// Round trip: parsing an assembled wire buffer reproduces the selector, the
/// command and the payload, for every payload variant under the command name
/// that announces it.
#[verifier::spinoff_prover]
#[verifier::rlimit(100)]
pub proof fn lemma_parse_of_assemble(m: RawMessageView)
    requires
        m.command == spec_command_for(m.payload),
        m.payload.wf(),
        spec_payload_wire(m.payload).len() <= 0xffffffff,
    ensures
        spec_parse(spec_message_bytes(m)) == Ok::<RawMessageView, DecodeError>(m),
{
    let b = spec_message_bytes(m);
    let wire = spec_payload_wire(m.payload);
    lemma_known_names_wf(m.command);
    assert(spec_command_encoded(m.command).len() == 12);
    assert(spec_checksum(wire).len() == 4);
    lemma_u32_le_round_trip();
    assert(b.subrange(0, 4) =~= spec_u32_le(spec_magic_value(m.magic)));
    assert(spec_u32_from_le(b.subrange(0, 4)) == spec_magic_value(m.magic));
    assert(b.subrange(4, 16) =~= spec_command_encoded(m.command));
    lemma_command_round_trip(m.command);
    assert(spec_command_decoded(b.subrange(4, 16)) == m.command);
    assert(b.subrange(16, 20) =~= spec_u32_le(wire.len() as u32));
    assert(spec_u32_from_le(b.subrange(16, 20)) == wire.len() as u32);
    assert(b.len() == 24 + wire.len());
    assert(b.subrange(20, 24) =~= spec_checksum(wire));
    assert(b.skip(24) =~= wire);
    assert(spec_version_name().len() == 7);
    assert(spec_verack_name().len() == 6);
    assert(spec_filterload_name().len() == 10);
    assert(spec_getdata_name().len() == 7);
    assert(spec_version_name()[0] == 0x76 && spec_getdata_name()[0] == 0x67);
    match m.payload {
        PayloadView::Version(v) => {
            lemma_version_round_trip(v);
        },
        PayloadView::Verack => {
            assert(wire.len() == 0);
        },
        PayloadView::FilterLoad(d) => {},
        PayloadView::GetData(d) => {},
    }
    assert(spec_parse(b) == Ok::<RawMessageView, DecodeError>(m));
}

/// Idempotence: a buffer that parses as a message is reproduced, byte for
/// byte, by re-assembling that message, provided the command's 12 wire bytes
/// were the canonical zero-padded form, so that no padding ambiguity is left.
#[verifier::spinoff_prover]
#[verifier::rlimit(100)]
pub proof fn lemma_assemble_of_parse(b: Seq<u8>, m: RawMessageView)
    requires
        spec_parse(b) == Ok::<RawMessageView, DecodeError>(m),
        b.subrange(4, 16) == spec_command_encoded(m.command),
    ensures
        spec_message_bytes(m) == b,
{
    let wire = spec_payload_wire(m.payload);
    let payload = b.skip(24);
    let magic_val = spec_u32_from_le(b.subrange(0, 4));
    let command = spec_command_decoded(b.subrange(4, 16));
    let length = spec_u32_from_le(b.subrange(16, 20));
    lemma_u32_le_round_trip();
    assert(b.len() >= 24);
    assert(magic_val == spec_magic_value(m.magic)) by {
        if magic_val == MAINNET_MAGIC {
            assert(m.magic == Magic::Main);
        } else {
            assert(m.magic == Magic::Testnet);
        }
    }
    assert(spec_u32_le(spec_magic_value(m.magic)) == b.subrange(0, 4)) by {
        assert(b.subrange(0, 4).len() == 4);
    }
    assert(length == b.len() - 24);
    assert(payload.len() == b.len() - 24);
    if command == spec_version_name() {
        let v = m.payload->Version_0;
        assert(spec_parse(b)->Ok_0.payload == PayloadView::Version(v));
        lemma_version_bytes_of_read(payload);
        assert(wire == payload);
    } else if command == spec_verack_name() {
        assert(payload.len() == 0);
        assert(wire =~= payload);
    } else if command == spec_filterload_name() {
        assert(wire == payload);
    } else if command == spec_getdata_name() {
        assert(wire == payload);
    } else {
        assert(false);
    }
    assert(wire.len() == length);
    assert(spec_u32_le(wire.len() as u32) == b.subrange(16, 20)) by {
        assert(b.subrange(16, 20).len() == 4);
    }
    assert(b.subrange(20, 24) == spec_checksum(wire));
    assert(spec_message_bytes(m) =~= b);
}

} // verus!
