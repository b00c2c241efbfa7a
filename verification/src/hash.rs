//! The proof verifier: SHA-256 candidate recomputation and the
//! leading-zero-bits difficulty rule. The difficulty rule used throughout is:
//! a candidate hash meets difficulty `d` exactly when its big-endian bit
//! string starts with at least `d` zero bits.

use vstd::prelude::*;
use sha2::Digest;
use crate::codec::push_bytes;

verus! {

/// The SHA-256 digest of a byte string; a function of its argument alone.
pub uninterp spec fn sha256_of(data: Seq<u8>) -> Seq<u8>;

/// Relies on sha2::Sha256::digest (SHA-256): the digest is 32 bytes wide and
/// depends on the input bytes alone.
#[verifier::external_body]
fn sha256(data: &Vec<u8>) -> (r: Vec<u8>)
    ensures
        r@ == sha256_of(data@),
        r@.len() == 32,
{
    sha2::Sha256::digest(data.as_slice()).to_vec()
}

/// The candidate a submission must equal: the digest of
/// `challenge ∥ miner ∥ nonce`.
pub open spec fn spec_candidate(challenge: Seq<u8>, miner: Seq<u8>, nonce: Seq<u8>) -> Seq<u8> {
    sha256_of(challenge + miner + nonce)
}

/// Recompute the candidate hash for a submission from the miner's stored
/// challenge, the miner identity, and the submitted nonce.
pub fn compute_candidate(challenge: &Vec<u8>, miner: &Vec<u8>, nonce: &Vec<u8>) -> (r: Vec<u8>)
    ensures
        r@ == spec_candidate(challenge@, miner@, nonce@),
        r@.len() == 32,
{
    let mut buf: Vec<u8> = Vec::new();
    push_bytes(&mut buf, challenge);
    push_bytes(&mut buf, miner);
    push_bytes(&mut buf, nonce);
    proof {
        assert(buf@ =~= challenge@ + miner@ + nonce@);
    }
    sha256(&buf)
}

/// Digest of the concatenation of two byte strings, as the standalone
/// record's proof chain uses it: `Hash(a ∥ b)`.
pub fn hash_pair(a: &Vec<u8>, b: &Vec<u8>) -> (r: Vec<u8>)
    ensures
        r@ == sha256_of(a@ + b@),
        r@.len() == 32,
{
    let mut buf: Vec<u8> = Vec::new();
    push_bytes(&mut buf, a);
    push_bytes(&mut buf, b);
    proof {
        assert(buf@ =~= a@ + b@);
    }
    sha256(&buf)
}

/// The challenge the next submission must extend, derived from the accepted
/// candidate: its digest.
pub open spec fn spec_next_challenge(candidate: Seq<u8>) -> Seq<u8> {
    sha256_of(candidate)
}

/// Rotate the challenge: derive the next challenge from an accepted
/// candidate hash.
pub fn rotate_challenge(candidate: &Vec<u8>) -> (r: Vec<u8>)
    ensures
        r@ == spec_next_challenge(candidate@),
        r@.len() == 32,
{
    sha256(candidate)
}

/// Leading zero bits of one byte.
pub open spec fn spec_byte_lz(b: u8) -> nat {
    if b >= 128 {
        0
    } else if b >= 64 {
        1
    } else if b >= 32 {
        2
    } else if b >= 16 {
        3
    } else if b >= 8 {
        4
    } else if b >= 4 {
        5
    } else if b >= 2 {
        6
    } else if b >= 1 {
        7
    } else {
        8
    }
}

/// Leading zero bits of a byte string read big-endian, most significant bit
/// of the first byte first.
pub open spec fn spec_leading_zero_bits(s: Seq<u8>) -> nat
    decreases s.len(),
{
    if s.len() == 0 {
        0
    } else if s[0] == 0 {
        8 + spec_leading_zero_bits(s.drop_first())
    } else {
        spec_byte_lz(s[0])
    }
}

/// A hash meets difficulty `d` when it starts with at least `d` zero bits.
pub open spec fn spec_meets_difficulty(h: Seq<u8>, d: u64) -> bool {
    spec_leading_zero_bits(h) >= d
}

/// Leading zero bits of one byte.
fn byte_lz(b: u8) -> (r: u64)
    ensures
        r == spec_byte_lz(b),
{
    if b >= 128 {
        0
    } else if b >= 64 {
        1
    } else if b >= 32 {
        2
    } else if b >= 16 {
        3
    } else if b >= 8 {
        4
    } else if b >= 4 {
        5
    } else if b >= 2 {
        6
    } else if b >= 1 {
        7
    } else {
        8
    }
}

/// Count the leading zero bits of a hash.
pub fn leading_zero_bits(h: &Vec<u8>) -> (r: u64)
    requires
        8 * h@.len() <= u64::MAX,
    ensures
        r == spec_leading_zero_bits(h@),
{
    let n = h.len();
    let mut count: u64 = 0;
    let mut i: usize = 0;
    proof {
        assert(h@.skip(0) =~= h@);
    }
    while i < n
        invariant
            n == h@.len(),
            8 * n <= u64::MAX,
            i <= n,
            count == 8 * i,
            forall|j: int| 0 <= j < i ==> h@[j] == 0,
            spec_leading_zero_bits(h@) == 8 * i + spec_leading_zero_bits(h@.skip(i as int)),
        decreases n - i,
    {
        let b = h[i];
        if b != 0 {
            proof {
                assert(h@.skip(i as int)[0] == b);
                assert(spec_leading_zero_bits(h@.skip(i as int)) == spec_byte_lz(b));
            }
            return count + byte_lz(b);
        }
        proof {
            assert(h@.skip(i as int)[0] == 0);
            assert(h@.skip(i as int).drop_first() =~= h@.skip(i as int + 1));
        }
        i += 1;
        count += 8;
    }
    proof {
        assert(h@.skip(n as int) =~= Seq::<u8>::empty());
        assert(spec_leading_zero_bits(h@.skip(n as int)) == 0);
    }
    count
}

/// Decide whether a hash meets the required difficulty.
pub fn meets_difficulty(h: &Vec<u8>, min_difficulty: u64) -> (r: bool)
    requires
        8 * h@.len() <= u64::MAX,
    ensures
        r <==> spec_meets_difficulty(h@, min_difficulty),
{
    leading_zero_bits(h) >= min_difficulty
}

} // verus!
