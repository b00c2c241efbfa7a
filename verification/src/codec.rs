//! Little-endian field primitives shared by the account and instruction
//! codecs: fixed-width integer reads and writes over byte vectors, and the
//! byte-range copy used to pull fixed-width fields out of a record buffer.

use vstd::prelude::*;
use vstd::bytes::{
    lemma_auto_spec_u64_to_from_le_bytes, spec_u64_from_le_bytes, spec_u64_to_le_bytes,
    u64_from_le_bytes, u64_to_le_bytes,
};

verus! {

/// Little-endian bytes of a signed 64-bit value, two's complement.
pub open spec fn spec_i64_to_le_bytes(x: i64) -> Seq<u8> {
    spec_u64_to_le_bytes(x as u64)
}

/// The signed 64-bit value read from 8 little-endian bytes, two's complement.
pub open spec fn spec_i64_from_le_bytes(s: Seq<u8>) -> i64 {
    spec_u64_from_le_bytes(s) as i64
}

/// An 8-byte little-endian field decodes back to the value it was encoded
/// from, for unsigned and for signed values alike.
pub proof fn lemma_i64_le_bytes_round_trip(x: i64)
    ensures
        spec_i64_to_le_bytes(x).len() == 8,
        spec_i64_from_le_bytes(spec_i64_to_le_bytes(x)) == x,
{
    lemma_auto_spec_u64_to_from_le_bytes();
    assert(((x as u64) as i64) == x) by (bit_vector);
}

/// Copy `len` bytes starting at `start` out of `data`.
pub fn copy_range(data: &Vec<u8>, start: usize, len: usize) -> (r: Vec<u8>)
    requires
        start + len <= data@.len(),
    ensures
        r@ == data@.subrange(start as int, start as int + len as int),
{
    let dlen = data.len();
    let mut r: Vec<u8> = Vec::new();
    let mut i: usize = 0;
    while i < len
        invariant
            i <= len,
            dlen == data@.len(),
            start + len <= data@.len(),
            r@ == data@.subrange(start as int, start as int + i as int),
        decreases len - i,
    {
        r.push(data[start + i]);
        proof {
            assert(r@ =~= data@.subrange(start as int, start as int + i as int + 1));
        }
        i += 1;
    }
    r
}

/// A vector of `len` zero bytes.
pub fn zero_bytes(len: usize) -> (r: Vec<u8>)
    ensures
        r@ == Seq::new(len as nat, |i: int| 0u8),
{
    let mut r: Vec<u8> = Vec::new();
    let mut i: usize = 0;
    while i < len
        invariant
            i <= len,
            r@.len() == i,
            forall|j: int| 0 <= j < i ==> r@[j] == 0u8,
        decreases len - i,
    {
        r.push(0u8);
        i += 1;
    }
    proof {
        assert(r@ =~= Seq::new(len as nat, |i: int| 0u8));
    }
    r
}

/// An owned copy of a byte vector's contents.
pub fn clone_bytes(src: &Vec<u8>) -> (r: Vec<u8>)
    ensures
        r@ == src@,
{
    let r = copy_range(src, 0, src.len());
    proof {
        assert(src@.subrange(0, src@.len() as int) =~= src@);
    }
    r
}

/// Append the contents of `src` to `out`.
pub fn push_bytes(out: &mut Vec<u8>, src: &Vec<u8>)
    ensures
        final(out)@ == old(out)@ + src@,
{
    let n = src.len();
    let mut i: usize = 0;
    while i < n
        invariant
            n == src@.len(),
            i <= n,
            out@ == old(out)@ + src@.subrange(0, i as int),
        decreases n - i,
    {
        out.push(src[i]);
        proof {
            assert(out@ =~= old(out)@ + src@.subrange(0, i as int + 1));
        }
        i += 1;
    }
    proof {
        assert(old(out)@ + src@.subrange(0, n as int) =~= old(out)@ + src@);
    }
}

/// Read the unsigned 64-bit little-endian field at `start`.
pub fn read_u64_le(data: &Vec<u8>, start: usize) -> (r: u64)
    requires
        start + 8 <= data@.len(),
    ensures
        r == spec_u64_from_le_bytes(data@.subrange(start as int, start as int + 8)),
{
    let b = copy_range(data, start, 8);
    u64_from_le_bytes(b.as_slice())
}

/// Read the signed 64-bit little-endian field at `start`.
pub fn read_i64_le(data: &Vec<u8>, start: usize) -> (r: i64)
    requires
        start + 8 <= data@.len(),
    ensures
        r == spec_i64_from_le_bytes(data@.subrange(start as int, start as int + 8)),
{
    let x = read_u64_le(data, start);
    #[verifier::truncate] (x as i64)
}

/// Append the 8 little-endian bytes of an unsigned 64-bit value.
pub fn write_u64_le(out: &mut Vec<u8>, x: u64)
    ensures
        final(out)@ == old(out)@ + spec_u64_to_le_bytes(x),
{
    let mut b = u64_to_le_bytes(x);
    out.append(&mut b);
}

/// Append the 8 little-endian bytes of a signed 64-bit value.
pub fn write_i64_le(out: &mut Vec<u8>, x: i64)
    ensures
        final(out)@ == old(out)@ + spec_i64_to_le_bytes(x),
{
    write_u64_le(out, #[verifier::truncate] (x as u64));
}

} // verus!
