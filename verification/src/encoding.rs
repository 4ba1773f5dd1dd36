//! Big-endian encodings of the fixed-width integers of the class file format.

use vstd::prelude::*;

verus! {

/// The two bytes of `x`, most significant first.
pub open spec fn u16_be(x: u16) -> Seq<u8> {
    seq![(x / 0x100) as u8, (x % 0x100) as u8]
}

/// The four bytes of `x`, most significant first.
pub open spec fn u32_be(x: u32) -> Seq<u8> {
    seq![
        (x / 0x100_0000) as u8,
        (x / 0x1_0000 % 0x100) as u8,
        (x / 0x100 % 0x100) as u8,
        (x % 0x100) as u8,
    ]
}

/// The eight bytes of `x`, most significant first.
pub open spec fn u64_be(x: u64) -> Seq<u8> {
    u32_be((x / 0x1_0000_0000) as u32) + u32_be((x % 0x1_0000_0000) as u32)
}

/// The two's complement bit pattern of `x`.
pub open spec fn i32_bits(x: i32) -> u32 {
    if x >= 0 {
        x as u32
    } else {
        (x + 0x1_0000_0000) as u32
    }
}

/// The two's complement bit pattern of `x`.
pub open spec fn i64_bits(x: i64) -> u64 {
    if x >= 0 {
        x as u64
    } else {
        (x + 0x1_0000_0000_0000_0000) as u64
    }
}

/// The four bytes of the two's complement form of `x`, most significant first.
pub open spec fn i32_be(x: i32) -> Seq<u8> {
    u32_be(i32_bits(x))
}

/// The eight bytes of the two's complement form of `x`, most significant first.
pub open spec fn i64_be(x: i64) -> Seq<u8> {
    u64_be(i64_bits(x))
}

/// Appends the big-endian form of `x` to `bytes`.
pub fn push_u16(bytes: &mut Vec<u8>, x: u16)
    ensures
        final(bytes)@ == old(bytes)@ + u16_be(x),
{
    bytes.push((x / 0x100) as u8);
    bytes.push((x % 0x100) as u8);
}

/// Appends the big-endian form of `x` to `bytes`.
pub fn push_u32(bytes: &mut Vec<u8>, x: u32)
    ensures
        final(bytes)@ == old(bytes)@ + u32_be(x),
{
    bytes.push((x / 0x100_0000) as u8);
    bytes.push((x / 0x1_0000 % 0x100) as u8);
    bytes.push((x / 0x100 % 0x100) as u8);
    bytes.push((x % 0x100) as u8);
}

/// Appends the big-endian form of `x` to `bytes`.
pub fn push_u64(bytes: &mut Vec<u8>, x: u64)
    ensures
        final(bytes)@ == old(bytes)@ + u64_be(x),
{
    push_u32(bytes, (x / 0x1_0000_0000) as u32);
    push_u32(bytes, (x % 0x1_0000_0000) as u32);
}

/// Appends the big-endian two's complement form of `x` to `bytes`.
pub fn push_i32(bytes: &mut Vec<u8>, x: i32)
    ensures
        final(bytes)@ == old(bytes)@ + i32_be(x),
{
    let bits: u32 = if x >= 0 {
        x as u32
    } else {
        (x as i64 + 0x1_0000_0000) as u32
    };
    push_u32(bytes, bits);
}

/// Appends the big-endian two's complement form of `x` to `bytes`.
pub fn push_i64(bytes: &mut Vec<u8>, x: i64)
    ensures
        final(bytes)@ == old(bytes)@ + i64_be(x),
{
    let bits: u64 = if x >= 0 {
        x as u64
    } else {
        (x as i128 + 0x1_0000_0000_0000_0000) as u64
    };
    push_u64(bytes, bits);
}

/// Appends a copy of `tail` to `bytes`.
pub fn push_all(bytes: &mut Vec<u8>, tail: &[u8])
    ensures
        final(bytes)@ == old(bytes)@ + tail@,
{
    let mut i: usize = 0;
    while i < tail.len()
        invariant
            i <= tail.len(),
            bytes@ == old(bytes)@ + tail@.take(i as int),
        decreases tail.len() - i,
    {
        bytes.push(tail[i]);
        i = i + 1;
    }
}

} // verus!
