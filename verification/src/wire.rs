//! Big-endian, two's complement integers as they stand on the wire.

use vstd::prelude::*;

verus! {

/// The value of a signed 8-bit integer's bit pattern, read as unsigned.
pub open spec fn unsigned_of_i8(v: i8) -> int {
    if v < 0 {
        v + 0x100
    } else {
        v as int
    }
}

/// The value of a signed 16-bit integer's bit pattern, read as unsigned.
pub open spec fn unsigned_of_i16(v: i16) -> int {
    if v < 0 {
        v + 0x1_0000
    } else {
        v as int
    }
}

/// The value of a signed 32-bit integer's bit pattern, read as unsigned.
pub open spec fn unsigned_of_i32(v: i32) -> int {
    if v < 0 {
        v + 0x1_0000_0000
    } else {
        v as int
    }
}

/// The one byte that encodes `v`.
pub open spec fn be_bytes_i8(v: i8) -> Seq<u8> {
    seq![unsigned_of_i8(v) as u8]
}

/// The two bytes that encode `v`, most significant first.
pub open spec fn be_bytes_i16(v: i16) -> Seq<u8> {
    let u = unsigned_of_i16(v);
    seq![(u / 0x100) as u8, (u % 0x100) as u8]
}

/// The four bytes that encode `v`, most significant first.
pub open spec fn be_bytes_i32(v: i32) -> Seq<u8> {
    let u = unsigned_of_i32(v);
    seq![
        (u / 0x100_0000) as u8,
        (u / 0x1_0000 % 0x100) as u8,
        (u / 0x100 % 0x100) as u8,
        (u % 0x100) as u8,
    ]
}

/// The signed 8-bit integer that the first byte of `b` encodes.
pub open spec fn i8_from_be(b: Seq<u8>) -> i8
    recommends
        b.len() == 1,
{
    let u = b[0] as int;
    if u >= 0x80 {
        (u - 0x100) as i8
    } else {
        u as i8
    }
}

/// The signed 16-bit integer that the first two bytes of `b` encode.
pub open spec fn i16_from_be(b: Seq<u8>) -> i16
    recommends
        b.len() == 2,
{
    let u = b[0] as int * 0x100 + b[1] as int;
    if u >= 0x8000 {
        (u - 0x1_0000) as i16
    } else {
        u as i16
    }
}

/// The signed 32-bit integer that the first four bytes of `b` encode.
pub open spec fn i32_from_be(b: Seq<u8>) -> i32
    recommends
        b.len() == 4,
{
    let u = b[0] as int * 0x100_0000 + b[1] as int * 0x1_0000 + b[2] as int * 0x100 + b[3] as int;
    if u >= 0x8000_0000 {
        (u - 0x1_0000_0000) as i32
    } else {
        u as i32
    }
}

/// Decoding what was encoded gives the integer back.
pub proof fn lemma_i8_round_trip(v: i8)
    ensures
        be_bytes_i8(v).len() == 1,
        i8_from_be(be_bytes_i8(v)) == v,
{
}

/// Decoding what was encoded gives the integer back.
pub proof fn lemma_i16_round_trip(v: i16)
    ensures
        be_bytes_i16(v).len() == 2,
        i16_from_be(be_bytes_i16(v)) == v,
{
}

/// Decoding what was encoded gives the integer back.
pub proof fn lemma_i32_round_trip(v: i32)
    ensures
        be_bytes_i32(v).len() == 4,
        i32_from_be(be_bytes_i32(v)) == v,
{
}

/// Encoding what was decoded gives the bytes back.
pub proof fn lemma_i8_bytes_round_trip(b: Seq<u8>)
    requires
        b.len() == 1,
    ensures
        be_bytes_i8(i8_from_be(b)) == b,
{
}

/// Encoding what was decoded gives the bytes back.
pub proof fn lemma_i16_bytes_round_trip(b: Seq<u8>)
    requires
        b.len() == 2,
    ensures
        be_bytes_i16(i16_from_be(b)) == b,
{
}

/// Encoding what was decoded gives the bytes back.
pub proof fn lemma_i32_bytes_round_trip(b: Seq<u8>)
    requires
        b.len() == 4,
    ensures
        be_bytes_i32(i32_from_be(b)) == b,
{
    let b0 = b[0] as int;
    let b1 = b[1] as int;
    let b2 = b[2] as int;
    let b3 = b[3] as int;
    let u = b0 * 0x100_0000 + b1 * 0x1_0000 + b2 * 0x100 + b3;
    assert(unsigned_of_i32(i32_from_be(b)) == u);
    assert(u / 0x100_0000 == b0);
    assert(u / 0x1_0000 == b0 * 0x100 + b1);
    assert(u / 0x100 == b0 * 0x1_0000 + b1 * 0x100 + b2);
    assert(u % 0x100 == b3);
    assert(be_bytes_i32(i32_from_be(b)) =~= b);
}

/// Appends the encoding of `v` to `out`.
pub fn put_i8(out: &mut Vec<u8>, v: i8)
    ensures
        final(out)@ == old(out)@ + be_bytes_i8(v),
{
    let u: u16 = if v < 0 {
        (v as i16 + 0x100) as u16
    } else {
        v as u16
    };
    out.push(u as u8);
}

/// Appends the encoding of `v` to `out`.
pub fn put_i16(out: &mut Vec<u8>, v: i16)
    ensures
        final(out)@ == old(out)@ + be_bytes_i16(v),
{
    let u: u32 = if v < 0 {
        (v as i32 + 0x1_0000) as u32
    } else {
        v as u32
    };
    out.push((u / 0x100) as u8);
    out.push((u % 0x100) as u8);
}

/// Appends the encoding of `v` to `out`.
pub fn put_i32(out: &mut Vec<u8>, v: i32)
    ensures
        final(out)@ == old(out)@ + be_bytes_i32(v),
{
    let u: u64 = if v < 0 {
        (v as i64 + 0x1_0000_0000) as u64
    } else {
        v as u64
    };
    out.push((u / 0x100_0000) as u8);
    out.push((u / 0x1_0000 % 0x100) as u8);
    out.push((u / 0x100 % 0x100) as u8);
    out.push((u % 0x100) as u8);
}

/// Reads the signed 8-bit integer at offset `at` of `buf`.
pub fn get_i8(buf: &[u8], at: usize) -> (v: i8)
    requires
        at + 1 <= buf.len(),
    ensures
        v == i8_from_be(buf@.subrange(at as int, at + 1)),
{
    let u: i16 = buf[at] as i16;
    if u >= 0x80 {
        (u - 0x100) as i8
    } else {
        u as i8
    }
}

/// Reads the signed 16-bit integer at offset `at` of `buf`.
pub fn get_i16(buf: &[u8], at: usize) -> (v: i16)
    requires
        at + 2 <= buf.len(),
    ensures
        v == i16_from_be(buf@.subrange(at as int, at + 2)),
{
    let u: i32 = buf[at] as i32 * 0x100 + buf[at + 1] as i32;
    if u >= 0x8000 {
        (u - 0x1_0000) as i16
    } else {
        u as i16
    }
}

/// Reads the signed 32-bit integer at offset `at` of `buf`.
pub fn get_i32(buf: &[u8], at: usize) -> (v: i32)
    requires
        at + 4 <= buf.len(),
    ensures
        v == i32_from_be(buf@.subrange(at as int, at + 4)),
{
    let u: i64 = buf[at] as i64 * 0x100_0000 + buf[at + 1] as i64 * 0x1_0000 + buf[at + 2] as i64
        * 0x100 + buf[at + 3] as i64;
    if u >= 0x8000_0000 {
        (u - 0x1_0000_0000) as i32
    } else {
        u as i32
    }
}

} // verus!
