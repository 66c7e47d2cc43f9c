//! Command identifier codec: a name of at most 12 bytes, sent as exactly 12
//! bytes with zero padding; decoding strips every zero byte.

use vstd::prelude::*;
use vstd::slice::slice_to_vec;

verus! {

/// A command name identifying the packet content. Only names of at most 12
/// bytes can be put on the wire; longer ones are a programming error.
#[derive(Clone, Debug)]
pub struct CommandString(pub Vec<u8>);

impl View for CommandString {
    type V = Seq<u8>;

    open spec fn view(&self) -> Seq<u8> {
        self.0@
    }
}

impl PartialEq for CommandString {
    /// Equality is by the name's bytes.
    fn eq(&self, other: &CommandString) -> (r: bool) {
        let r = self.0 == other.0;
        proof {
            if r {
                assert(self.0@ =~= other.0@);
            }
        }
        r
    }
}

impl vstd::std_specs::cmp::PartialEqSpecImpl for CommandString {
    open spec fn obeys_eq_spec() -> bool {
        true
    }

    open spec fn eq_spec(&self, other: &CommandString) -> bool {
        self.0@ == other.0@
    }
}

impl Eq for CommandString {}

/// The wire form of a command name: the name's bytes padded with zero bytes
/// to exactly 12.
pub open spec fn spec_command_encoded(name: Seq<u8>) -> Seq<u8>
    recommends
        name.len() <= 12,
{
    name + Seq::new((12 - name.len()) as nat, |i: int| 0u8)
}

/// What decoding 12 wire bytes yields: every zero byte is dropped, wherever
/// it stands, and the remaining bytes keep their order.
pub open spec fn spec_command_decoded(raw: Seq<u8>) -> Seq<u8> {
    raw.filter(|b: u8| b != 0)
}

/// Dropping the zero bytes of a sequence extended by one byte keeps the byte
/// exactly when it is not zero.
pub proof fn lemma_decoded_push(s: Seq<u8>, e: u8)
    ensures
        spec_command_decoded(s.push(e)) == if e != 0 {
            spec_command_decoded(s).push(e)
        } else {
            spec_command_decoded(s)
        },
{
    reveal(Seq::filter);
    assert(s.push(e).drop_last() =~= s);
    assert(s.push(e).last() == e);
}

/// Dropping zero bytes distributes over concatenation.
pub proof fn lemma_decoded_concat(a: Seq<u8>, b: Seq<u8>)
    ensures
        spec_command_decoded(a + b) == spec_command_decoded(a) + spec_command_decoded(b),
    decreases b.len(),
{
    reveal(Seq::filter);
    if b.len() == 0 {
        assert(a + b =~= a);
        assert(spec_command_decoded(b) =~= Seq::<u8>::empty());
        assert(spec_command_decoded(a) + spec_command_decoded(b) =~= spec_command_decoded(a));
    } else {
        lemma_decoded_concat(a, b.drop_last());
        lemma_decoded_push(a + b.drop_last(), b.last());
        lemma_decoded_push(b.drop_last(), b.last());
        assert((a + b.drop_last()).push(b.last()) =~= a + b);
        assert(b.drop_last().push(b.last()) =~= b);
    }
}

/// A sequence without zero bytes is left unchanged by the zero-byte filter.
pub proof fn lemma_decoded_all_nonzero(s: Seq<u8>)
    requires
        forall|i: int| 0 <= i < s.len() ==> s[i] != 0,
    ensures
        spec_command_decoded(s) == s,
    decreases s.len(),
{
    reveal(Seq::filter);
    if s.len() == 0 {
        assert(spec_command_decoded(s) =~= s);
    } else {
        lemma_decoded_all_nonzero(s.drop_last());
        lemma_decoded_push(s.drop_last(), s.last());
        assert(s.drop_last().push(s.last()) =~= s);
    }
}

/// A sequence of zero bytes alone is filtered down to nothing.
pub proof fn lemma_decoded_all_zero(s: Seq<u8>)
    requires
        forall|i: int| 0 <= i < s.len() ==> s[i] == 0,
    ensures
        spec_command_decoded(s) == Seq::<u8>::empty(),
    decreases s.len(),
{
    reveal(Seq::filter);
    if s.len() == 0 {
        assert(spec_command_decoded(s) =~= Seq::<u8>::empty());
    } else {
        lemma_decoded_all_zero(s.drop_last());
        lemma_decoded_push(s.drop_last(), s.last());
        assert(s.drop_last().push(s.last()) =~= s);
    }
}

/// Decoding undoes encoding for every name of at most 12 bytes that holds no
/// zero byte.
pub proof fn lemma_command_round_trip(name: Seq<u8>)
    requires
        name.len() <= 12,
        forall|i: int| 0 <= i < name.len() ==> name[i] != 0,
    ensures
        spec_command_decoded(spec_command_encoded(name)) == name,
{
    let pad = Seq::new((12 - name.len()) as nat, |i: int| 0u8);
    lemma_decoded_concat(name, pad);
    lemma_decoded_all_nonzero(name);
    lemma_decoded_all_zero(pad);
    assert(name + Seq::<u8>::empty() =~= name);
}

/// The zero-byte filter never lengthens its input.
pub proof fn lemma_decoded_len(raw: Seq<u8>)
    ensures
        spec_command_decoded(raw).len() <= raw.len(),
{
    raw.lemma_filter_len(|b: u8| b != 0);
}

impl CommandString {
    /// The name's wire form: its bytes, zero-padded to exactly 12.
    pub fn encode(&self) -> (r: Vec<u8>)
        requires
            self.0@.len() <= 12,
        ensures
            r@ == spec_command_encoded(self.0@),
            r@.len() == 12,
    {
        let mut out = slice_to_vec(self.0.as_slice());
        while out.len() < 12
            invariant
                self.0@.len() <= out@.len() <= 12,
                out@ == self.0@ + Seq::new((out@.len() - self.0@.len()) as nat, |i: int| 0u8),
            decreases 12 - out@.len(),
        {
            out.push(0);
            assert(out@ =~= self.0@ + Seq::new((out@.len() - self.0@.len()) as nat, |i: int| 0u8));
        }
        proof {
            assert(out@ =~= spec_command_encoded(self.0@));
        }
        out
    }

    /// The name's wire form, or nothing where the name is longer than 12
    /// bytes and has no wire form.
    pub fn try_encode(&self) -> (r: Option<Vec<u8>>)
        ensures
            self.0@.len() <= 12 <==> r is Some,
            r matches Some(v) ==> v@ == spec_command_encoded(self.0@),
    {
        if self.0.len() <= 12 {
            Some(self.encode())
        } else {
            None
        }
    }

    /// Reads a name back from its 12 wire bytes, dropping every zero byte.
    pub fn decode(raw: &[u8]) -> (r: CommandString)
        requires
            raw@.len() == 12,
        ensures
            r.0@ == spec_command_decoded(raw@),
    {
        let mut out: Vec<u8> = Vec::new();
        let mut i: usize = 0;
        proof {
            reveal(Seq::filter);
            assert(raw@.subrange(0, 0) =~= Seq::<u8>::empty());
        }
        while i < 12
            invariant
                0 <= i <= 12,
                raw@.len() == 12,
                out@ == spec_command_decoded(raw@.subrange(0, i as int)),
            decreases 12 - i,
        {
            let b = raw[i];
            proof {
                lemma_decoded_push(raw@.subrange(0, i as int), b);
                assert(raw@.subrange(0, i as int).push(b) =~= raw@.subrange(0, i as int + 1));
            }
            if b > 0 {
                out.push(b);
            }
            i = i + 1;
        }
        proof {
            assert(raw@.subrange(0, 12) =~= raw@);
        }
        CommandString(out)
    }
}

} // verus!
