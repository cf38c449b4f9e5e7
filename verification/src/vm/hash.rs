//! The FNV-1a hash the machine gives field names and integers: each byte,
//! taken as an unsigned octet, is xored in and then multiplied by the prime.

use vstd::prelude::*;
use crate::bytes::le64;
use vstd::utf8::encode_utf8;

verus! {

/// The starting state of the hash.
pub const FNV_OFFSET: u64 = 0xcbf29ce484222325;

/// The multiplier of each step.
pub const FNV_PRIME: u64 = 0x100000001b3;

/// One step of the hash: xor in the byte, then multiply by the prime modulo
/// 2^64.
pub open spec fn fnv_step(acc: u64, b: u8) -> u64 {
    vstd::wrapping::u64_specs::wrapping_mul(acc ^ (b as u64), FNV_PRIME)
}

/// The hash of a byte sequence: the steps folded from the left, starting at
/// the offset.
pub open spec fn fnv_hash(s: Seq<u8>) -> u64
    decreases s.len(),
{
    if s.len() == 0 {
        FNV_OFFSET
    } else {
        fnv_step(fnv_hash(s.drop_last()), s.last())
    }
}

/// Hashes the bytes of `x`.
pub fn hash_bytes(x: &[u8]) -> (h: u64)
    ensures
        h == fnv_hash(x@),
{
    let mut acc: u64 = FNV_OFFSET;
    let mut i: usize = 0;
    while i < x.len()
        invariant
            i <= x@.len(),
            acc == fnv_hash(x@.take(i as int)),
        decreases x@.len() - i,
    {
        let byte: u8 = x[i];
        let wide: u64 = byte as u64;
        acc = (acc ^ wide).wrapping_mul(FNV_PRIME);
        assert(x@.take(i + 1).drop_last() =~= x@.take(i as int));
        i = i + 1;
    }
    assert(x@.take(x@.len() as int) =~= x@);
    acc
}

/// Hashes the UTF-8 bytes of `x`.
pub fn hash_str(x: &str) -> (h: u64)
    ensures
        h == fnv_hash(encode_utf8(x@)),
{
    hash_bytes(x.as_bytes())
}

/// Hashes the eight bytes of `x` in memory order, least significant first.
pub fn hash_int(x: u64) -> (h: u64)
    ensures
        h == fnv_hash(le64(x)),
{
    let bytes: [u8; 8] = [
        (x & 0xff) as u8,
        ((x >> 8u64) & 0xff) as u8,
        ((x >> 16u64) & 0xff) as u8,
        ((x >> 24u64) & 0xff) as u8,
        ((x >> 32u64) & 0xff) as u8,
        ((x >> 40u64) & 0xff) as u8,
        ((x >> 48u64) & 0xff) as u8,
        ((x >> 56u64) & 0xff) as u8,
    ];
    assert(bytes@ =~= le64(x));
    hash_bytes(&bytes)
}

} // verus!
