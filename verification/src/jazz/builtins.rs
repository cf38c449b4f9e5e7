//! The integer and byte conversions among the Jazz machine's builtins, on the
//! plain integers the machine's values hold.

use vstd::prelude::*;
use crate::bytes::{from_le16, from_le32, from_le64};

verus! {

/// Byte `k` of `x`, least significant first, as a value between 0 and 255.
pub open spec fn byte_of(x: i64, k: int) -> i64 {
    (((x as u64) >> ((8 * k) as u64)) & 0xff) as i64
}

/// The low `size` bytes of `integer`, least significant first.
pub open spec fn low_bytes(integer: i64, size: nat) -> Seq<i64> {
    Seq::new(size, |k: int| byte_of(integer, k))
}

/// The integer that an array of 2, 4 or 8 bytes (each taken modulo 256)
/// holds little-endian, sign-extended from its width; a single element as it
/// is; nothing for other lengths.
pub open spec fn from_bytes(a: Seq<i64>) -> Option<i64> {
    if a.len() == 1 {
        Some(a[0])
    } else if a.len() == 2 {
        Some(from_le16(a[0] as u8, a[1] as u8) as i16 as i64)
    } else if a.len() == 4 {
        Some(from_le32(a[0] as u8, a[1] as u8, a[2] as u8, a[3] as u8) as i32 as i64)
    } else if a.len() == 8 {
        Some(
            from_le64(
                a[0] as u8,
                a[1] as u8,
                a[2] as u8,
                a[3] as u8,
                a[4] as u8,
                a[5] as u8,
                a[6] as u8,
                a[7] as u8,
            ) as i64,
        )
    } else {
        None
    }
}

/// The bytes of `integer` in a `size`-byte integer, least significant
/// first; `size` is 1, 2, 4 or 8.
pub fn int_to_bytes(integer: i64, size: i64) -> (bytes: Vec<i64>)
    requires
        size == 1 || size == 2 || size == 4 || size == 8,
    ensures
        bytes@ == low_bytes(integer, size as nat),
{
    let x = integer as u64;
    let mut bytes: Vec<i64> = Vec::new();
    let mut k: u64 = 0;
    while k < size as u64
        invariant
            size == 1 || size == 2 || size == 4 || size == 8,
            x == integer as u64,
            k <= size,
            bytes@ == low_bytes(integer, k as nat),
        decreases size - k,
    {
        let b = ((x >> (8 * k)) & 0xff) as i64;
        bytes.push(b);
        proof {
            assert(bytes@ =~= low_bytes(integer, (k + 1) as nat));
        }
        k = k + 1;
    }
    bytes
}

/// The integer an array of bytes holds, as `from_bytes` says; `None` when
/// its length is not 1, 2, 4 or 8.
pub fn int_from_bytes(array: &Vec<i64>) -> (r: Option<i64>)
    ensures
        r == from_bytes(array@),
{
    let n = array.len();
    if n == 1 {
        Some(array[0])
    } else if n == 2 {
        let v = (array[0] as u8 as u16) | ((array[1] as u8 as u16) << 8u16);
        Some(v as i16 as i64)
    } else if n == 4 {
        let v = (array[0] as u8 as u32) | ((array[1] as u8 as u32) << 8u32) | ((
        array[2] as u8 as u32) << 16u32) | ((array[3] as u8 as u32) << 24u32);
        Some(v as i32 as i64)
    } else if n == 8 {
        let v = (array[0] as u8 as u64) | ((array[1] as u8 as u64) << 8u64) | ((
        array[2] as u8 as u64) << 16u64) | ((array[3] as u8 as u64) << 24u64) | ((
        array[4] as u8 as u64) << 32u64) | ((array[5] as u8 as u64) << 40u64) | ((
        array[6] as u8 as u64) << 48u64) | ((array[7] as u8 as u64) << 56u64);
        Some(v as i64)
    } else {
        None
    }
}

/// Converting an integer to `size` bytes and back gives it truncated to
/// that width: sign-extended for 2, 4 and 8 bytes, and for one byte the
/// byte itself, which is not sign-extended.
pub proof fn lemma_int_bytes_roundtrip(x: i64, size: i64)
    requires
        size == 1 || size == 2 || size == 4 || size == 8,
    ensures
        from_bytes(low_bytes(x, size as nat)) == Some(
            if size == 1 {
                x as u8 as i64
            } else if size == 2 {
                x as i16 as i64
            } else if size == 4 {
                x as i32 as i64
            } else {
                x
            },
        ),
{
    let b = low_bytes(x, size as nat);
    let u = x as u64;
    if size == 1 {
        assert(b[0] == byte_of(x, 0));
        assert(((u >> 0u64) & 0xff) as i64 == (x as u8) as i64) by (bit_vector)
            requires
                u == x as u64,
        ;
    } else if size == 2 {
        assert(b[0] == byte_of(x, 0) && b[1] == byte_of(x, 1));
        assert(from_le16(((u >> 0u64) & 0xff) as i64 as u8, ((u >> 8u64) & 0xff) as i64 as u8)
            as i16 as i64 == x as i16 as i64) by (bit_vector)
            requires
                u == x as u64,
        ;
    } else if size == 4 {
        assert(b[0] == byte_of(x, 0) && b[1] == byte_of(x, 1) && b[2] == byte_of(x, 2) && b[3]
            == byte_of(x, 3));
        assert(from_le32(
            ((u >> 0u64) & 0xff) as i64 as u8,
            ((u >> 8u64) & 0xff) as i64 as u8,
            ((u >> 16u64) & 0xff) as i64 as u8,
            ((u >> 24u64) & 0xff) as i64 as u8,
        ) as i32 as i64 == x as i32 as i64) by (bit_vector)
            requires
                u == x as u64,
        ;
    } else {
        assert(b[0] == byte_of(x, 0) && b[1] == byte_of(x, 1) && b[2] == byte_of(x, 2) && b[3]
            == byte_of(x, 3) && b[4] == byte_of(x, 4) && b[5] == byte_of(x, 5) && b[6] == byte_of(
            x,
            6,
        ) && b[7] == byte_of(x, 7));
        assert(from_le64(
            ((u >> 0u64) & 0xff) as i64 as u8,
            ((u >> 8u64) & 0xff) as i64 as u8,
            ((u >> 16u64) & 0xff) as i64 as u8,
            ((u >> 24u64) & 0xff) as i64 as u8,
            ((u >> 32u64) & 0xff) as i64 as u8,
            ((u >> 40u64) & 0xff) as i64 as u8,
            ((u >> 48u64) & 0xff) as i64 as u8,
            ((u >> 56u64) & 0xff) as i64 as u8,
        ) as i64 == x) by (bit_vector)
            requires
                u == x as u64,
        ;
    }
}

} // verus!
