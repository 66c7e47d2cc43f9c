//! Primitive wire codecs shared by every message component.
//!
//! The protocol serializes integers in little-endian order, except for the
//! address groups and the port of a network address, which go out big-endian.
//! Variable-length byte strings are prefixed with a compact length marker
//! whose shortest form is mandatory.

use vstd::prelude::*;

verus! {

// ---------------------------------------------------------------------------
// Little-endian and big-endian byte layouts of the primitive integers.
// ---------------------------------------------------------------------------

pub open spec fn spec_u16_le(x: u16) -> Seq<u8> {
    seq![(x & 0xff) as u8, ((x >> 8) & 0xff) as u8]
}

pub open spec fn spec_u16_be(x: u16) -> Seq<u8> {
    seq![((x >> 8) & 0xff) as u8, (x & 0xff) as u8]
}

pub open spec fn spec_u32_le(x: u32) -> Seq<u8> {
    seq![
        (x & 0xff) as u8,
        ((x >> 8) & 0xff) as u8,
        ((x >> 16) & 0xff) as u8,
        ((x >> 24) & 0xff) as u8,
    ]
}

pub open spec fn spec_u64_le(x: u64) -> Seq<u8> {
    seq![
        (x & 0xff) as u8,
        ((x >> 8) & 0xff) as u8,
        ((x >> 16) & 0xff) as u8,
        ((x >> 24) & 0xff) as u8,
        ((x >> 32) & 0xff) as u8,
        ((x >> 40) & 0xff) as u8,
        ((x >> 48) & 0xff) as u8,
        ((x >> 56) & 0xff) as u8,
    ]
}

pub open spec fn spec_u16_from_le(s: Seq<u8>) -> u16
    recommends
        s.len() == 2,
{
    (s[0] as u16) | (s[1] as u16) << 8
}

pub open spec fn spec_u16_from_be(s: Seq<u8>) -> u16
    recommends
        s.len() == 2,
{
    (s[0] as u16) << 8 | (s[1] as u16)
}

pub open spec fn spec_u32_from_le(s: Seq<u8>) -> u32
    recommends
        s.len() == 4,
{
    (s[0] as u32) | (s[1] as u32) << 8 | (s[2] as u32) << 16 | (s[3] as u32) << 24
}

pub open spec fn spec_u64_from_le(s: Seq<u8>) -> u64
    recommends
        s.len() == 8,
{
    (s[0] as u64) | (s[1] as u64) << 8 | (s[2] as u64) << 16 | (s[3] as u64) << 24
        | (s[4] as u64) << 32 | (s[5] as u64) << 40 | (s[6] as u64) << 48 | (s[7] as u64) << 56
}

/// Swaps the two bytes of a 16-bit group, so that the protocol's plain
/// little-endian integer layout emits the group in big-endian order.
pub open spec fn spec_swap16(x: u16) -> u16 {
    (x >> 8) | (x << 8)
}

// ---------------------------------------------------------------------------
// Round-trip facts about the primitive layouts.
// ---------------------------------------------------------------------------

pub proof fn lemma_u16_le_round_trip()
    ensures
        forall|x: u16|
            {
                &&& (#[trigger] spec_u16_le(x)).len() == 2
                &&& spec_u16_from_le(spec_u16_le(x)) == x
            },
        forall|s: Seq<u8>| s.len() == 2 ==> #[trigger] spec_u16_le(spec_u16_from_le(s)) == s,
{
    assert forall|x: u16|
        {
            &&& (#[trigger] spec_u16_le(x)).len() == 2
            &&& spec_u16_from_le(spec_u16_le(x)) == x
        } by {
        assert(((x & 0xff) as u8) as u16 | ((((x >> 8) & 0xff) as u8) as u16) << 8 == x)
            by (bit_vector);
    }
    assert forall|s: Seq<u8>| s.len() == 2 implies #[trigger] spec_u16_le(spec_u16_from_le(s))
        == s by {
        let b0 = s[0];
        let b1 = s[1];
        let x = spec_u16_from_le(s);
        assert(((b0 as u16 | (b1 as u16) << 8) & 0xff) as u8 == b0 && (((b0 as u16 | (b1 as u16)
            << 8) >> 8) & 0xff) as u8 == b1) by (bit_vector);
        assert(spec_u16_le(x) =~= s);
    }
}

pub proof fn lemma_u16_be_round_trip()
    ensures
        forall|x: u16|
            {
                &&& (#[trigger] spec_u16_be(x)).len() == 2
                &&& spec_u16_from_be(spec_u16_be(x)) == x
            },
        forall|s: Seq<u8>| s.len() == 2 ==> #[trigger] spec_u16_be(spec_u16_from_be(s)) == s,
{
    assert forall|x: u16|
        {
            &&& (#[trigger] spec_u16_be(x)).len() == 2
            &&& spec_u16_from_be(spec_u16_be(x)) == x
        } by {
        assert((((((x >> 8) & 0xff) as u8) as u16) << 8) | (((x & 0xff) as u8) as u16) == x)
            by (bit_vector);
    }
    assert forall|s: Seq<u8>| s.len() == 2 implies #[trigger] spec_u16_be(spec_u16_from_be(s))
        == s by {
        let b0 = s[0];
        let b1 = s[1];
        let x = spec_u16_from_be(s);
        assert(((((b0 as u16) << 8 | b1 as u16) >> 8) & 0xff) as u8 == b0 && (((b0 as u16) << 8
            | b1 as u16) & 0xff) as u8 == b1) by (bit_vector);
        assert(spec_u16_be(x) =~= s);
    }
}

pub proof fn lemma_u32_le_round_trip()
    ensures
        forall|x: u32|
            {
                &&& (#[trigger] spec_u32_le(x)).len() == 4
                &&& spec_u32_from_le(spec_u32_le(x)) == x
            },
        forall|s: Seq<u8>| s.len() == 4 ==> #[trigger] spec_u32_le(spec_u32_from_le(s)) == s,
{
    assert forall|x: u32|
        {
            &&& (#[trigger] spec_u32_le(x)).len() == 4
            &&& spec_u32_from_le(spec_u32_le(x)) == x
        } by {
        assert(((x & 0xff) as u8) as u32 | ((((x >> 8) & 0xff) as u8) as u32) << 8 | ((((x >> 16)
            & 0xff) as u8) as u32) << 16 | ((((x >> 24) & 0xff) as u8) as u32) << 24 == x)
            by (bit_vector);
    }
    assert forall|s: Seq<u8>| s.len() == 4 implies #[trigger] spec_u32_le(spec_u32_from_le(s))
        == s by {
        let b0 = s[0];
        let b1 = s[1];
        let b2 = s[2];
        let b3 = s[3];
        let x = spec_u32_from_le(s);
        assert({
            let y = b0 as u32 | (b1 as u32) << 8 | (b2 as u32) << 16 | (b3 as u32) << 24;
            &&& ((y & 0xff) as u8) == b0
            &&& (((y >> 8) & 0xff) as u8) == b1
            &&& (((y >> 16) & 0xff) as u8) == b2
            &&& (((y >> 24) & 0xff) as u8) == b3
        }) by (bit_vector);
        assert(spec_u32_le(x) =~= s);
    }
}

pub proof fn lemma_u64_le_round_trip()
    ensures
        forall|x: u64|
            {
                &&& (#[trigger] spec_u64_le(x)).len() == 8
                &&& spec_u64_from_le(spec_u64_le(x)) == x
            },
        forall|s: Seq<u8>| s.len() == 8 ==> #[trigger] spec_u64_le(spec_u64_from_le(s)) == s,
{
    assert forall|x: u64|
        {
            &&& (#[trigger] spec_u64_le(x)).len() == 8
            &&& spec_u64_from_le(spec_u64_le(x)) == x
        } by {
        assert(((x & 0xff) as u8) as u64 | ((((x >> 8) & 0xff) as u8) as u64) << 8 | ((((x >> 16)
            & 0xff) as u8) as u64) << 16 | ((((x >> 24) & 0xff) as u8) as u64) << 24 | ((((x >> 32)
            & 0xff) as u8) as u64) << 32 | ((((x >> 40) & 0xff) as u8) as u64) << 40 | ((((x >> 48)
            & 0xff) as u8) as u64) << 48 | ((((x >> 56) & 0xff) as u8) as u64) << 56 == x)
            by (bit_vector);
    }
    assert forall|s: Seq<u8>| s.len() == 8 implies #[trigger] spec_u64_le(spec_u64_from_le(s))
        == s by {
        let b0 = s[0];
        let b1 = s[1];
        let b2 = s[2];
        let b3 = s[3];
        let b4 = s[4];
        let b5 = s[5];
        let b6 = s[6];
        let b7 = s[7];
        let x = spec_u64_from_le(s);
        assert({
            let y = b0 as u64 | (b1 as u64) << 8 | (b2 as u64) << 16 | (b3 as u64) << 24 | (
            b4 as u64) << 32 | (b5 as u64) << 40 | (b6 as u64) << 48 | (b7 as u64) << 56;
            &&& ((y & 0xff) as u8) == b0
            &&& (((y >> 8) & 0xff) as u8) == b1
            &&& (((y >> 16) & 0xff) as u8) == b2
            &&& (((y >> 24) & 0xff) as u8) == b3
            &&& (((y >> 32) & 0xff) as u8) == b4
            &&& (((y >> 40) & 0xff) as u8) == b5
            &&& (((y >> 48) & 0xff) as u8) == b6
            &&& (((y >> 56) & 0xff) as u8) == b7
        }) by (bit_vector);
        assert(spec_u64_le(x) =~= s);
    }
}

/// Serializing a byte-swapped group in little-endian order emits the group's
/// big-endian bytes.
pub proof fn lemma_swapped_le_is_be(x: u16)
    ensures
        spec_u16_le(spec_swap16(x)) == spec_u16_be(x),
{
    let y = spec_swap16(x);
    assert((((x >> 8) | (x << 8)) & 0xff) as u8 == ((x >> 8) & 0xff) as u8 && ((((x >> 8) | (x
        << 8)) >> 8) & 0xff) as u8 == (x & 0xff) as u8) by (bit_vector);
    assert(spec_u16_le(y) =~= spec_u16_be(x));
}

// ---------------------------------------------------------------------------
// Executable writers: each appends the layout of one primitive to a buffer.
// ---------------------------------------------------------------------------

/// Appends the 2 little-endian bytes of `x` to `out`.
pub fn push_u16_le(out: &mut Vec<u8>, x: u16)
    ensures
        final(out)@ == old(out)@ + spec_u16_le(x),
{
    assert(x & 0xff < 256 && (x >> 8) & 0xff < 256) by (bit_vector);
    out.push((x & 0xff) as u8);
    out.push(((x >> 8) & 0xff) as u8);
    assert(out@ =~= old(out)@ + spec_u16_le(x));
}

/// Appends the 4 little-endian bytes of `x` to `out`.
pub fn push_u32_le(out: &mut Vec<u8>, x: u32)
    ensures
        final(out)@ == old(out)@ + spec_u32_le(x),
{
    assert(x & 0xff < 256 && (x >> 8) & 0xff < 256 && (x >> 16) & 0xff < 256 && (x >> 24) & 0xff
        < 256) by (bit_vector);
    out.push((x & 0xff) as u8);
    out.push(((x >> 8) & 0xff) as u8);
    out.push(((x >> 16) & 0xff) as u8);
    out.push(((x >> 24) & 0xff) as u8);
    assert(out@ =~= old(out)@ + spec_u32_le(x));
}

/// Appends the 8 little-endian bytes of `x` to `out`.
pub fn push_u64_le(out: &mut Vec<u8>, x: u64)
    ensures
        final(out)@ == old(out)@ + spec_u64_le(x),
{
    assert(x & 0xff < 256 && (x >> 8) & 0xff < 256 && (x >> 16) & 0xff < 256 && (x >> 24) & 0xff
        < 256 && (x >> 32) & 0xff < 256 && (x >> 40) & 0xff < 256 && (x >> 48) & 0xff < 256 && (x
        >> 56) & 0xff < 256) by (bit_vector);
    out.push((x & 0xff) as u8);
    out.push(((x >> 8) & 0xff) as u8);
    out.push(((x >> 16) & 0xff) as u8);
    out.push(((x >> 24) & 0xff) as u8);
    out.push(((x >> 32) & 0xff) as u8);
    out.push(((x >> 40) & 0xff) as u8);
    out.push(((x >> 48) & 0xff) as u8);
    out.push(((x >> 56) & 0xff) as u8);
    assert(out@ =~= old(out)@ + spec_u64_le(x));
}

// ---------------------------------------------------------------------------
// Executable readers: each reads one primitive at a position in a buffer.
// ---------------------------------------------------------------------------

/// Reads the 16-bit big-endian group at `pos`.
pub fn read_u16_be(b: &[u8], pos: usize) -> (x: u16)
    requires
        pos + 2 <= b@.len(),
    ensures
        x == spec_u16_from_be(b@.subrange(pos as int, pos as int + 2)),
{
    let x = (b[pos] as u16) << 8 | (b[pos + 1] as u16);
    proof {
        let s = b@.subrange(pos as int, pos as int + 2);
        assert(s[0] == b@[pos as int] && s[1] == b@[pos as int + 1]);
    }
    x
}

/// Reads the 32-bit little-endian integer at `pos`.
pub fn read_u32_le(b: &[u8], pos: usize) -> (x: u32)
    requires
        pos + 4 <= b@.len(),
    ensures
        x == spec_u32_from_le(b@.subrange(pos as int, pos as int + 4)),
{
    let x = (b[pos] as u32) | (b[pos + 1] as u32) << 8 | (b[pos + 2] as u32) << 16 | (b[pos
        + 3] as u32) << 24;
    proof {
        let s = b@.subrange(pos as int, pos as int + 4);
        assert(s[0] == b@[pos as int] && s[1] == b@[pos as int + 1] && s[2] == b@[pos as int + 2]
            && s[3] == b@[pos as int + 3]);
    }
    x
}

/// Reads the 64-bit little-endian integer at `pos`.
pub fn read_u64_le(b: &[u8], pos: usize) -> (x: u64)
    requires
        pos + 8 <= b@.len(),
    ensures
        x == spec_u64_from_le(b@.subrange(pos as int, pos as int + 8)),
{
    let x = (b[pos] as u64) | (b[pos + 1] as u64) << 8 | (b[pos + 2] as u64) << 16 | (b[pos
        + 3] as u64) << 24 | (b[pos + 4] as u64) << 32 | (b[pos + 5] as u64) << 40 | (b[pos
        + 6] as u64) << 48 | (b[pos + 7] as u64) << 56;
    proof {
        let s = b@.subrange(pos as int, pos as int + 8);
        assert(s[0] == b@[pos as int] && s[1] == b@[pos as int + 1] && s[2] == b@[pos as int + 2]
            && s[3] == b@[pos as int + 3] && s[4] == b@[pos as int + 4] && s[5] == b@[pos as int
            + 5] && s[6] == b@[pos as int + 6] && s[7] == b@[pos as int + 7]);
    }
    x
}

// ---------------------------------------------------------------------------
// Compact length marker for variable-length byte strings.
// ---------------------------------------------------------------------------

/// The shortest compact encoding of a length.
pub open spec fn spec_varint(n: u64) -> Seq<u8> {
    if n < 0xfd {
        seq![n as u8]
    } else if n <= 0xffff {
        seq![0xfdu8] + spec_u16_le(n as u16)
    } else if n <= 0xffffffff {
        seq![0xfeu8] + spec_u32_le(n as u32)
    } else {
        seq![0xffu8] + spec_u64_le(n)
    }
}

/// Reads a compact length marker from the front of `b`: the value and the
/// number of bytes consumed. Markers longer than the shortest form for their
/// value are rejected.
pub open spec fn spec_read_varint(b: Seq<u8>) -> Option<(u64, int)> {
    if b.len() < 1 {
        None
    } else if b[0] < 0xfd {
        Some((b[0] as u64, 1))
    } else if b[0] == 0xfd {
        if b.len() < 3 {
            None
        } else {
            let v = spec_u16_from_le(b.subrange(1, 3));
            if v >= 0xfd {
                Some((v as u64, 3))
            } else {
                None
            }
        }
    } else if b[0] == 0xfe {
        if b.len() < 5 {
            None
        } else {
            let v = spec_u32_from_le(b.subrange(1, 5));
            if v > 0xffff {
                Some((v as u64, 5))
            } else {
                None
            }
        }
    } else {
        if b.len() < 9 {
            None
        } else {
            let v = spec_u64_from_le(b.subrange(1, 9));
            if v > 0xffffffff {
                Some((v, 9))
            } else {
                None
            }
        }
    }
}

/// Reading a compact length marker undoes writing one, whatever follows it.
pub proof fn lemma_varint_round_trip(n: u64, rest: Seq<u8>)
    ensures
        spec_read_varint(spec_varint(n) + rest) == Some((n, spec_varint(n).len() as int)),
{
    let b = spec_varint(n) + rest;
    if n < 0xfd {
        assert(b[0] == n as u8);
        assert((n as u8) as u64 == n);
    } else if n <= 0xffff {
        assert(b[0] == 0xfdu8);
        assert(b.subrange(1, 3) =~= spec_u16_le(n as u16));
        lemma_u16_le_round_trip();
        assert((n as u16) as u64 == n);
    } else if n <= 0xffffffff {
        assert(b[0] == 0xfeu8);
        assert(b.subrange(1, 5) =~= spec_u32_le(n as u32));
        lemma_u32_le_round_trip();
        assert((n as u32) as u64 == n);
    } else {
        assert(b[0] == 0xffu8);
        assert(b.subrange(1, 9) =~= spec_u64_le(n));
        lemma_u64_le_round_trip();
    }
}

/// Writing back a compact length marker that was read reproduces the bytes
/// that were consumed: only the shortest form is ever accepted.
pub proof fn lemma_varint_canonical(b: Seq<u8>)
    requires
        spec_read_varint(b) is Some,
    ensures
        ({
            let (v, c) = spec_read_varint(b)->Some_0;
            spec_varint(v) == b.subrange(0, c)
        }),
{
    let (v, c) = spec_read_varint(b)->Some_0;
    if b[0] < 0xfd {
        assert(spec_varint(v) =~= b.subrange(0, 1));
    } else if b[0] == 0xfd {
        lemma_u16_le_round_trip();
        assert(spec_u16_le(spec_u16_from_le(b.subrange(1, 3))) == b.subrange(1, 3));
        assert(spec_varint(v) =~= b.subrange(0, 3));
    } else if b[0] == 0xfe {
        lemma_u32_le_round_trip();
        assert(spec_u32_le(spec_u32_from_le(b.subrange(1, 5))) == b.subrange(1, 5));
        assert(spec_varint(v) =~= b.subrange(0, 5));
    } else {
        lemma_u64_le_round_trip();
        assert(spec_u64_le(spec_u64_from_le(b.subrange(1, 9))) == b.subrange(1, 9));
        assert(spec_varint(v) =~= b.subrange(0, 9));
    }
}

/// Appends the shortest compact encoding of `n` to `out`.
pub fn push_varint(out: &mut Vec<u8>, n: u64)
    ensures
        final(out)@ == old(out)@ + spec_varint(n),
{
    if n < 0xfd {
        out.push(n as u8);
        assert(out@ =~= old(out)@ + spec_varint(n));
    } else if n <= 0xffff {
        out.push(0xfd);
        push_u16_le(out, n as u16);
        assert(out@ =~= old(out)@ + spec_varint(n));
    } else if n <= 0xffffffff {
        out.push(0xfe);
        push_u32_le(out, n as u32);
        assert(out@ =~= old(out)@ + spec_varint(n));
    } else {
        out.push(0xff);
        push_u64_le(out, n);
        assert(out@ =~= old(out)@ + spec_varint(n));
    }
}

/// Reads the compact length marker at `pos`, returning the value and the
/// number of bytes consumed, or nothing where the buffer is too short or the
/// marker is not in its shortest form.
pub fn read_varint(b: &[u8], pos: usize) -> (r: Option<(u64, usize)>)
    requires
        pos <= b@.len(),
    ensures
        match r {
            Some((v, c)) => {
                &&& spec_read_varint(b@.skip(pos as int)) == Some((v, c as int))
                &&& pos + c <= b@.len()
                &&& 1 <= c <= 9
            },
            None => spec_read_varint(b@.skip(pos as int)) is None,
        },
{
    let ghost tail = b@.skip(pos as int);
    if b.len() - pos < 1 {
        return None;
    }
    let k = b[pos];
    proof {
        assert(tail[0] == b@[pos as int]);
    }
    if k < 0xfd {
        Some((k as u64, 1))
    } else if k == 0xfd {
        if b.len() - pos < 3 {
            return None;
        }
        let v = (b[pos + 1] as u16) | (b[pos + 2] as u16) << 8;
        proof {
            let s = tail.subrange(1, 3);
            assert(s[0] == b@[pos as int + 1] && s[1] == b@[pos as int + 2]);
        }
        if v >= 0xfd {
            Some((v as u64, 3))
        } else {
            None
        }
    } else if k == 0xfe {
        if b.len() - pos < 5 {
            return None;
        }
        let v = read_u32_le(b, pos + 1);
        proof {
            assert(tail.subrange(1, 5) =~= b@.subrange(pos as int + 1, pos as int + 5));
        }
        if v > 0xffff {
            Some((v as u64, 5))
        } else {
            None
        }
    } else {
        if b.len() - pos < 9 {
            return None;
        }
        let v = read_u64_le(b, pos + 1);
        proof {
            assert(tail.subrange(1, 9) =~= b@.subrange(pos as int + 1, pos as int + 9));
        }
        if v > 0xffffffff {
            Some((v, 9))
        } else {
            None
        }
    }
}

} // verus!
