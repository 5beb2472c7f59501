//! Little-endian integers: what their bytes mean, and the conversions
//! between an integer and its bytes.

use byteorder::{ByteOrder, LittleEndian};
use vstd::prelude::*;

verus! {

/// The 16-bit number that two bytes hold, least significant byte first.
pub open spec fn u16_from_le(b: Seq<u8>) -> int
    recommends
        b.len() == 2,
{
    b[0] + 0x100 * b[1]
}

/// The 32-bit number that four bytes hold, least significant byte first.
pub open spec fn u32_from_le(b: Seq<u8>) -> int
    recommends
        b.len() == 4,
{
    b[0] + 0x100 * b[1] + 0x1_0000 * b[2] + 0x100_0000 * b[3]
}

/// The two bytes of a 16-bit number, least significant byte first.
pub open spec fn u16_to_le(n: u16) -> Seq<u8> {
    seq![(n % 0x100) as u8, (n / 0x100) as u8]
}

/// The four bytes of a 32-bit number, least significant byte first.
pub open spec fn u32_to_le(n: u32) -> Seq<u8> {
    seq![
        (n % 0x100) as u8,
        (n / 0x100 % 0x100) as u8,
        (n / 0x1_0000 % 0x100) as u8,
        (n / 0x100_0000) as u8,
    ]
}

/// Reading back the bytes of a 16-bit number gives the number.
pub proof fn lemma_u16_le_value(n: u16)
    ensures
        u16_to_le(n).len() == 2,
        u16_from_le(u16_to_le(n)) == n,
{
}

/// Reading back the bytes of a 32-bit number gives the number.
pub proof fn lemma_u32_le_value(n: u32)
    ensures
        u32_to_le(n).len() == 4,
        u32_from_le(u32_to_le(n)) == n,
{
}

/// Two bytes are the bytes of the number they hold.
pub proof fn lemma_u16_le_bytes(b: Seq<u8>)
    requires
        b.len() == 2,
    ensures
        0 <= u16_from_le(b) <= u16::MAX,
        u16_to_le(u16_from_le(b) as u16) == b,
{
}

/// Four bytes are the bytes of the number they hold.
pub proof fn lemma_u32_le_bytes(b: Seq<u8>)
    requires
        b.len() == 4,
    ensures
        0 <= u32_from_le(b) <= u32::MAX,
        u32_to_le(u32_from_le(b) as u32) == b,
{
    let (b0, b1, b2, b3) = (b[0] as int, b[1] as int, b[2] as int, b[3] as int);
    let n = u32_from_le(b);
    let low = b0 + 0x100 * b1 + 0x1_0000 * b2;
    assert(n == low + 0x100_0000 * b3);
    assert(n / 0x100_0000 == b3 && n % 0x100_0000 == low);
    assert(n / 0x1_0000 == b2 + 0x100 * b3);
    assert(n / 0x100 == b1 + 0x100 * b2 + 0x1_0000 * b3);
    let back = u32_to_le(n as u32);
    assert(back[0] == b[0]);
    assert(back[1] == b[1]);
    assert(back[2] == b[2]);
    assert(back[3] == b[3]);
    assert(back =~= b);
}

/// `byteorder::LittleEndian::read_u16`, which panics on fewer than two
/// bytes and otherwise gives the number held by the first two.
#[verifier::external_body]
pub(crate) fn le_read_u16(buf: &[u8]) -> (n: u16)
    requires
        buf@.len() >= 2,
    ensures
        n == u16_from_le(buf@.subrange(0, 2)),
{
    LittleEndian::read_u16(buf)
}

/// `byteorder::LittleEndian::read_u32`, which panics on fewer than four
/// bytes and otherwise gives the number held by the first four.
#[verifier::external_body]
pub(crate) fn le_read_u32(buf: &[u8]) -> (n: u32)
    requires
        buf@.len() >= 4,
    ensures
        n == u32_from_le(buf@.subrange(0, 4)),
{
    LittleEndian::read_u32(buf)
}

/// `byteorder::LittleEndian::write_u16` on a buffer of two bytes, which it
/// fills with the bytes of `n`.
#[verifier::external_body]
pub(crate) fn le_write_u16(n: u16) -> (buf: [u8; 2])
    ensures
        buf@ == u16_to_le(n),
{
    let mut buf = [0u8; 2];
    LittleEndian::write_u16(&mut buf, n);
    buf
}

/// `byteorder::LittleEndian::write_u32` on a buffer of four bytes, which it
/// fills with the bytes of `n`.
#[verifier::external_body]
pub(crate) fn le_write_u32(n: u32) -> (buf: [u8; 4])
    ensures
        buf@ == u32_to_le(n),
{
    let mut buf = [0u8; 4];
    LittleEndian::write_u32(&mut buf, n);
    buf
}

} // verus!
