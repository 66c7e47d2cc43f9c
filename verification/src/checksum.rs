//! Payload integrity checksum: the first four bytes of the double SHA-256
//! digest of the payload.

use vstd::prelude::*;

verus! {

/// The SHA-256 digest of a byte sequence. The digest itself is computed by an
/// outside library; contracts only rely on it being a 32-byte function of the
/// input bytes alone.
pub uninterp spec fn sha256_of(input: Seq<u8>) -> Seq<u8>;

/// Relies on hmac_sha256::Hash::hash: the SHA-256 digest, 32 bytes, a
/// function of the input bytes alone.
#[verifier::external_body]
fn sha256(input: &[u8]) -> (r: Vec<u8>)
    ensures
        r@ == sha256_of(input@),
        r@.len() == 32,
{
    hmac_sha256::Hash::hash(input).to_vec()
}

/// What the checksum of a payload is: the first four bytes of the double
/// SHA-256 digest.
pub open spec fn spec_checksum(input: Seq<u8>) -> Seq<u8> {
    Seq::new(4, |i: int| sha256_of(sha256_of(input))[i])
}

/// Computes the checksum of `input`: SHA256(SHA256(input)), truncated to the
/// first four bytes.
pub fn sha_sha(input: &[u8]) -> (r: Vec<u8>)
    ensures
        r@ == spec_checksum(input@),
        r@.len() == 4,
{
    let hash_m1 = sha256(input);
    let mut hash_m2 = sha256(hash_m1.as_slice());
    hash_m2.truncate(4);
    proof {
        assert(hash_m2@ =~= spec_checksum(input@));
    }
    hash_m2
}

} // verus!
