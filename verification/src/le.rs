//! Little-endian encoding of the integers that tile headers and buffers hold.

use byteorder::{ByteOrder, LittleEndian};
use vstd::prelude::*;

verus! {

/// The two bytes of `x`, least significant first.
pub open spec fn le_bytes_u16(x: u16) -> Seq<u8> {
    seq![(x % 256) as u8, (x / 256) as u8]
}

/// The four bytes of `x`, least significant first.
pub open spec fn le_bytes_u32(x: u32) -> Seq<u8> {
    seq![
        (x % 256) as u8,
        ((x / 256) % 256) as u8,
        ((x / 65536) % 256) as u8,
        (x / 16777216) as u8,
    ]
}

/// Calls `byteorder::LittleEndian::write_u16` on a two-byte array.  Trusted:
/// the array then holds the low byte of `x` followed by its high byte.
#[verifier::external_body]
fn encode_u16(x: u16) -> (b: [u8; 2])
    ensures
        b@ == le_bytes_u16(x),
{
    let mut b: [u8; 2] = [0; 2];
    LittleEndian::write_u16(&mut b, x);
    b
}

/// Calls `byteorder::LittleEndian::write_u32` on a four-byte array.  Trusted:
/// the array then holds the four bytes of `x` from least to most significant.
#[verifier::external_body]
fn encode_u32(x: u32) -> (b: [u8; 4])
    ensures
        b@ == le_bytes_u32(x),
{
    let mut b: [u8; 4] = [0; 4];
    LittleEndian::write_u32(&mut b, x);
    b
}

/// Appends the little-endian bytes of `x` to `buf`.
pub fn push_u16_le(buf: &mut Vec<u8>, x: u16)
    ensures
        final(buf)@ == old(buf)@ + le_bytes_u16(x),
{
    let b = encode_u16(x);
    buf.push(b[0]);
    buf.push(b[1]);
    assert(buf@ =~= old(buf)@ + le_bytes_u16(x));
}

/// Appends the little-endian bytes of `x` to `buf`.
pub fn push_u32_le(buf: &mut Vec<u8>, x: u32)
    ensures
        final(buf)@ == old(buf)@ + le_bytes_u32(x),
{
    let b = encode_u32(x);
    buf.push(b[0]);
    buf.push(b[1]);
    buf.push(b[2]);
    buf.push(b[3]);
    assert(buf@ =~= old(buf)@ + le_bytes_u32(x));
}

/// The number that four little-endian bytes stand for.
pub open spec fn le_value_u32(s: Seq<u8>) -> int {
    s[0] + 256 * s[1] + 65536 * s[2] + 16777216 * s[3]
}

/// A `u32` is recovered from its little-endian bytes.
pub proof fn lemma_le_bytes_u32_value(x: u32)
    ensures
        le_bytes_u32(x).len() == 4,
        le_value_u32(le_bytes_u32(x)) == x,
{
}

} // verus!
