//! Little-endian views of byte buffers.
//!
//! Every structure the journal protocol exchanges is a fixed-offset,
//! little-endian layout; these helpers give each multi-byte field an exact
//! specification.

use vstd::prelude::*;

verus! {

/// The 16-bit little-endian value stored at offset `i` of `b`.
pub open spec fn le16(b: Seq<u8>, i: int) -> u16 {
    ((b[i] as int) + 0x100 * (b[i + 1] as int)) as u16
}

/// The 32-bit little-endian value stored at offset `i` of `b`.
pub open spec fn le32(b: Seq<u8>, i: int) -> u32 {
    ((b[i] as int) + 0x100 * (b[i + 1] as int) + 0x1_0000 * (b[i + 2] as int) + 0x100_0000 * (b[i
        + 3] as int)) as u32
}

/// The 64-bit little-endian value stored at offset `i` of `b`.
pub open spec fn le64(b: Seq<u8>, i: int) -> u64 {
    ((b[i] as int) + 0x100 * (b[i + 1] as int) + 0x1_0000 * (b[i + 2] as int) + 0x100_0000 * (b[i
        + 3] as int) + 0x1_0000_0000 * (b[i + 4] as int) + 0x100_0000_0000 * (b[i + 5] as int)
        + 0x1_0000_0000_0000 * (b[i + 6] as int) + 0x100_0000_0000_0000 * (b[i + 7] as int)) as u64
}

/// The 64-bit little-endian value at offset `i` of `b`, reinterpreted as signed.
pub open spec fn le64_signed(b: Seq<u8>, i: int) -> i64 {
    le64(b, i) as i64
}

pub fn read_le_u16(b: &[u8], i: usize) -> (r: u16)
    requires
        i + 2 <= b@.len(),
    ensures
        r == le16(b@, i as int),
{
    (b[i] as u16) + 0x100 * (b[i + 1] as u16)
}

pub fn read_le_u32(b: &[u8], i: usize) -> (r: u32)
    requires
        i + 4 <= b@.len(),
    ensures
        r == le32(b@, i as int),
{
    (b[i] as u32) + 0x100 * (b[i + 1] as u32) + 0x1_0000 * (b[i + 2] as u32) + 0x100_0000 * (b[i
        + 3] as u32)
}

pub fn read_le_u64(b: &[u8], i: usize) -> (r: u64)
    requires
        i + 8 <= b@.len(),
    ensures
        r == le64(b@, i as int),
{
    (b[i] as u64) + 0x100 * (b[i + 1] as u64) + 0x1_0000 * (b[i + 2] as u64) + 0x100_0000 * (b[i
        + 3] as u64) + 0x1_0000_0000 * (b[i + 4] as u64) + 0x100_0000_0000 * (b[i + 5] as u64)
        + 0x1_0000_0000_0000 * (b[i + 6] as u64) + 0x100_0000_0000_0000 * (b[i + 7] as u64)
}

pub fn read_le_i64(b: &[u8], i: usize) -> (r: i64)
    requires
        i + 8 <= b@.len(),
    ensures
        r == le64_signed(b@, i as int),
{
    read_le_u64(b, i) as i64
}

/// The little-endian encoding of a 16-bit value.
pub open spec fn enc16(v: u16) -> Seq<u8> {
    seq![(v % 0x100) as u8, ((v as int / 0x100) % 0x100) as u8]
}

/// The little-endian encoding of a 32-bit value.
pub open spec fn enc32(v: u32) -> Seq<u8> {
    seq![
        (v % 0x100) as u8,
        ((v as int / 0x100) % 0x100) as u8,
        ((v as int / 0x1_0000) % 0x100) as u8,
        ((v as int / 0x100_0000) % 0x100) as u8,
    ]
}

/// The little-endian encoding of a 64-bit value.
pub open spec fn enc64(v: u64) -> Seq<u8> {
    seq![
        (v % 0x100) as u8,
        ((v as int / 0x100) % 0x100) as u8,
        ((v as int / 0x1_0000) % 0x100) as u8,
        ((v as int / 0x100_0000) % 0x100) as u8,
        ((v as int / 0x1_0000_0000) % 0x100) as u8,
        ((v as int / 0x100_0000_0000) % 0x100) as u8,
        ((v as int / 0x1_0000_0000_0000) % 0x100) as u8,
        ((v as int / 0x100_0000_0000_0000) % 0x100) as u8,
    ]
}

pub fn push_le_u16(out: &mut Vec<u8>, v: u16)
    ensures
        final(out)@ == old(out)@ + enc16(v),
{
    out.push((v % 0x100) as u8);
    out.push(((v / 0x100) % 0x100) as u8);
    assert(out@ =~= old(out)@ + enc16(v));
}

pub fn push_le_u32(out: &mut Vec<u8>, v: u32)
    ensures
        final(out)@ == old(out)@ + enc32(v),
{
    out.push((v % 0x100) as u8);
    out.push(((v / 0x100) % 0x100) as u8);
    out.push(((v / 0x1_0000) % 0x100) as u8);
    out.push(((v / 0x100_0000) % 0x100) as u8);
    assert(out@ =~= old(out)@ + enc32(v));
}

pub fn push_le_u64(out: &mut Vec<u8>, v: u64)
    ensures
        final(out)@ == old(out)@ + enc64(v),
{
    out.push((v % 0x100) as u8);
    out.push(((v / 0x100) % 0x100) as u8);
    out.push(((v / 0x1_0000) % 0x100) as u8);
    out.push(((v / 0x100_0000) % 0x100) as u8);
    out.push(((v / 0x1_0000_0000) % 0x100) as u8);
    out.push(((v / 0x100_0000_0000) % 0x100) as u8);
    out.push(((v / 0x1_0000_0000_0000) % 0x100) as u8);
    out.push(((v / 0x100_0000_0000_0000) % 0x100) as u8);
    assert(out@ =~= old(out)@ + enc64(v));
}

/// Decoding an encoded value gives the value back, for every width.
pub proof fn lemma_le_round_trip(v16: u16, v32: u32, v64: u64)
    ensures
        le16(enc16(v16), 0) == v16,
        le32(enc32(v32), 0) == v32,
        le64(enc64(v64), 0) == v64,
{
    assert(v16 % 0x100 + 0x100 * ((v16 / 0x100) % 0x100) == v16) by (bit_vector);
    assert(v32 % 0x100 + 0x100 * ((v32 / 0x100) % 0x100) + 0x1_0000 * ((v32 / 0x1_0000) % 0x100)
        + 0x100_0000 * ((v32 / 0x100_0000) % 0x100) == v32) by (bit_vector);
    assert((v64 % 0x100) + 0x100 * ((v64 / 0x100) % 0x100) + 0x1_0000 * ((v64 / 0x1_0000) % 0x100)
        + 0x100_0000 * ((v64 / 0x100_0000) % 0x100) + 0x1_0000_0000 * ((v64 / 0x1_0000_0000)
        % 0x100) + 0x100_0000_0000 * ((v64 / 0x100_0000_0000) % 0x100) + 0x1_0000_0000_0000 * ((v64
        / 0x1_0000_0000_0000) % 0x100) + 0x100_0000_0000_0000 * ((v64 / 0x100_0000_0000_0000)
        % 0x100) == v64) by (bit_vector);
}

} // verus!
