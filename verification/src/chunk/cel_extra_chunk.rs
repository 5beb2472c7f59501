//! The cel extra record: the bounds of a cel with sub-pixel precision.
//!
//! | offset | size | field                           |
//! |--------|------|---------------------------------|
//! | 0      | 4    | flags (bit 0: precise bounds)   |
//! | 4      | 4    | precise x, 16.16 fixed point    |
//! | 8      | 4    | precise y, 16.16 fixed point    |
//! | 12     | 4    | width, 16.16 fixed point        |
//! | 16     | 4    | height, 16.16 fixed point       |
//! | 20     | 16   | reserved                        |
//!
//! All numbers are little-endian.

use crate::cursor::{available, overwrite, run, ByteCursor};
use crate::endian::{lemma_u32_le_bytes, lemma_u32_le_value, u32_from_le, u32_to_le};
use crate::error::CodecError;
use crate::fixed_point::U16F16;
use crate::helpers::{
    read_fixed_point_number_16_16, read_u32, write_fixed_point_number_16_16, write_u32,
};
use vstd::prelude::*;

verus! {

/// The capabilities of a cel extra record, one bit each. Bit 0 is the only
/// one with a name.
#[derive(Debug, Copy, Clone, Eq, PartialEq, Structural)]
pub struct Flags {
    pub bits: u32,
}

impl Flags {
    /// All the bits that have a name.
    pub const ALL: u32 = 1;

    /// Bit 0 alone: the precise bounds of the record are set.
    pub fn precise_bounds() -> (flags: Self)
        ensures
            flags.bits == 1,
    {
        Flags { bits: 1 }
    }

    /// The flags whose named bits are those set in `bits`; the bits without
    /// a name are dropped.
    pub fn from_bits_truncate(bits: u32) -> (flags: Self)
        ensures
            flags.bits == bits & Self::ALL,
    {
        Flags { bits: bits & Self::ALL }
    }

    /// The bits as they are held, also those without a name.
    pub fn bits(&self) -> (bits: u32)
        ensures
            bits == self.bits,
    {
        self.bits
    }

    /// Every bit that is set in `other` is set here too.
    pub fn contains(&self, other: Flags) -> (all_set: bool)
        ensures
            all_set == (self.bits & other.bits == other.bits),
    {
        self.bits & other.bits == other.bits
    }
}

/// What truncation keeps of any bits is bit 0 and nothing else, and
/// truncating again changes nothing.
pub proof fn lemma_truncated_flags(bits: u32)
    ensures
        bits & Flags::ALL <= 1,
        (bits & Flags::ALL == 1) <==> bits % 2 == 1,
        (bits & Flags::ALL) & Flags::ALL == bits & Flags::ALL,
{
    assert(bits & 1 <= 1) by (bit_vector);
    assert((bits & 1 == 1) <==> bits % 2 == 1) by (bit_vector);
    assert((bits & 1) & 1 == bits & 1) by (bit_vector);
}

/// A cel extra record.
#[derive(Debug, Copy, Clone, Eq, PartialEq, Structural)]
pub struct CelExtraChunk {
    pub flags: Flags,
    pub precise_x_position: U16F16,
    pub precise_y_position: U16F16,
    pub width: U16F16,
    pub height: U16F16,
}

/// The number of bytes that the five fields take.
pub const FIELDS_LEN: usize = 20;

/// The number of reserved bytes, which follow the fields and mean nothing.
pub const RESERVED_LEN: usize = 16;

impl CelExtraChunk {
    /// The twenty bytes of the five fields, with the flags as they are held.
    pub open spec fn field_bytes(self) -> Seq<u8> {
        u32_to_le(self.flags.bits) + u32_to_le(self.precise_x_position.bits) + u32_to_le(
            self.precise_y_position.bits,
        ) + u32_to_le(self.width.bits) + u32_to_le(self.height.bits)
    }

    /// `buf` after the record was written at `at`: the fields, and the
    /// reserved bytes as `buf` had them.
    pub open spec fn encoded(self, buf: Seq<u8>, at: int) -> Seq<u8> {
        overwrite(buf, at, self.field_bytes())
    }

    /// The record with the flag bits that have no name dropped.
    pub open spec fn truncated(self) -> CelExtraChunk {
        CelExtraChunk { flags: Flags { bits: self.flags.bits & Flags::ALL }, ..self }
    }

    /// The record that the bytes of `buf` from `at` on hold, and the place
    /// where it ends; or why they hold none.
    pub open spec fn decoded(buf: Seq<u8>, at: int) -> Result<(CelExtraChunk, int), CodecError> {
        if available(buf, at) < 20 {
            Err(CodecError::UnexpectedEof)
        } else if at + 36 > usize::MAX {
            Err(CodecError::InvalidSeek)
        } else {
            Ok(
                (
                    CelExtraChunk {
                        flags: Flags { bits: (u32_from_le(run(buf, at, 4)) as u32) & Flags::ALL },
                        precise_x_position: U16F16 { bits: u32_from_le(run(buf, at + 4, 4)) as u32 },
                        precise_y_position: U16F16 { bits: u32_from_le(run(buf, at + 8, 4)) as u32 },
                        width: U16F16 { bits: u32_from_le(run(buf, at + 12, 4)) as u32 },
                        height: U16F16 { bits: u32_from_le(run(buf, at + 16, 4)) as u32 },
                    },
                    at + 36,
                ),
            )
        }
    }

    /// The horizontal position, as the fixed-point number it is.
    pub fn precise_x_position(&self) -> (number: U16F16)
        ensures
            number == self.precise_x_position,
    {
        self.precise_x_position
    }

    /// The vertical position, as the fixed-point number it is.
    pub fn precise_y_position(&self) -> (number: U16F16)
        ensures
            number == self.precise_y_position,
    {
        self.precise_y_position
    }

    /// The width, as the fixed-point number it is.
    pub fn width(&self) -> (number: U16F16)
        ensures
            number == self.width,
    {
        self.width
    }

    /// The height, as the fixed-point number it is.
    pub fn height(&self) -> (number: U16F16)
        ensures
            number == self.height,
    {
        self.height
    }

    /// Reads the fields one after the other and stops at the first that
    /// fails, with the cursor wherever it then is.
    fn read_fields(read: &mut ByteCursor) -> (res: Result<Self, CodecError>)
        ensures
            final(read).bytes == old(read).bytes,
            match res {
                Ok(chunk) => Self::decoded(old(read).bytes@, old(read).position as int) == Ok::<
                    (CelExtraChunk, int),
                    CodecError,
                >((chunk, final(read).position as int)),
                Err(e) => Self::decoded(old(read).bytes@, old(read).position as int) == Err::<
                    (CelExtraChunk, int),
                    CodecError,
                >(e),
            },
    {
        let flags = Flags::from_bits_truncate(read_u32(read)?);
        let precise_x_position = read_fixed_point_number_16_16(read)?;
        let precise_y_position = read_fixed_point_number_16_16(read)?;
        let width = read_fixed_point_number_16_16(read)?;
        let height = read_fixed_point_number_16_16(read)?;
        read.skip(RESERVED_LEN)?;

        Ok(CelExtraChunk { flags, precise_x_position, precise_y_position, width, height })
    }

    /// Reads a record at the position and moves the position to its end.
    /// The reserved bytes are passed over unread and need not all exist.
    /// On failure the cursor stays where it was.
    pub fn from_read(read: &mut ByteCursor) -> (res: Result<Self, CodecError>)
        ensures
            final(read).bytes == old(read).bytes,
            match res {
                Ok(chunk) => Self::decoded(old(read).bytes@, old(read).position as int) == Ok::<
                    (CelExtraChunk, int),
                    CodecError,
                >((chunk, final(read).position as int)),
                Err(e) => {
                    &&& Self::decoded(old(read).bytes@, old(read).position as int) == Err::<
                        (CelExtraChunk, int),
                        CodecError,
                    >(e)
                    &&& final(read).position == old(read).position
                },
            },
    {
        let start = read.position;
        let res = Self::read_fields(read);
        if res.is_err() {
            read.position = start;
        }
        res
    }

    /// Writes the record at the position and moves the position to its end:
    /// the flags as held, the four numbers, and the reserved bytes left as
    /// they are. The buffer must hold the whole record; else nothing is
    /// written.
    pub fn write(&self, wtr: &mut ByteCursor) -> (res: Result<(), CodecError>)
        ensures
            match res {
                Ok(()) => {
                    &&& old(wtr).has(36)
                    &&& final(wtr).bytes@ == self.encoded(old(wtr).bytes@, old(wtr).position as int)
                    &&& final(wtr).position == old(wtr).position + 36
                },
                Err(e) => {
                    &&& e == CodecError::WriteZero
                    &&& !old(wtr).has(36)
                    &&& *final(wtr) == *old(wtr)
                },
            },
    {
        if wtr.remaining() < FIELDS_LEN + RESERVED_LEN {
            return Err(CodecError::WriteZero);
        }
        write_u32(wtr, self.flags.bits())?;
        write_fixed_point_number_16_16(wtr, &self.precise_x_position)?;
        write_fixed_point_number_16_16(wtr, &self.precise_y_position)?;
        write_fixed_point_number_16_16(wtr, &self.width)?;
        write_fixed_point_number_16_16(wtr, &self.height)?;
        wtr.skip_within(RESERVED_LEN)?;
        assert(wtr.bytes@ =~= self.encoded(old(wtr).bytes@, old(wtr).position as int));
        Ok(())
    }
}

/// Writing a record and reading at the same place gives the record back,
/// but for the flag bits without a name, which are dropped.
pub proof fn lemma_round_trip(chunk: CelExtraChunk, buf: Seq<u8>, at: int)
    requires
        0 <= at,
        at + 36 <= buf.len(),
        at + 36 <= usize::MAX,
    ensures
        CelExtraChunk::decoded(chunk.encoded(buf, at), at) == Ok::<
            (CelExtraChunk, int),
            CodecError,
        >((chunk.truncated(), at + 36)),
{
    let out = chunk.encoded(buf, at);
    lemma_u32_le_value(chunk.flags.bits);
    lemma_u32_le_value(chunk.precise_x_position.bits);
    lemma_u32_le_value(chunk.precise_y_position.bits);
    lemma_u32_le_value(chunk.width.bits);
    lemma_u32_le_value(chunk.height.bits);
    assert(run(out, at, 4) =~= u32_to_le(chunk.flags.bits));
    assert(run(out, at + 4, 4) =~= u32_to_le(chunk.precise_x_position.bits));
    assert(run(out, at + 8, 4) =~= u32_to_le(chunk.precise_y_position.bits));
    assert(run(out, at + 12, 4) =~= u32_to_le(chunk.width.bits));
    assert(run(out, at + 16, 4) =~= u32_to_le(chunk.height.bits));
}

/// Reading a record whose flags have no bit without a name, and writing it
/// at the same place, leaves the buffer as it was: such fields have one
/// encoding only.
pub proof fn lemma_read_then_write(buf: Seq<u8>, at: int)
    requires
        0 <= at,
        CelExtraChunk::decoded(buf, at) is Ok,
        u32_from_le(run(buf, at, 4)) <= 1,
    ensures
        CelExtraChunk::decoded(buf, at)->Ok_0.0.encoded(buf, at) == buf,
{
    let chunk = CelExtraChunk::decoded(buf, at)->Ok_0.0;
    let raw = u32_from_le(run(buf, at, 4)) as u32;
    assert(raw <= 1 ==> raw & 1 == raw) by (bit_vector);
    lemma_u32_le_bytes(run(buf, at, 4));
    lemma_u32_le_bytes(run(buf, at + 4, 4));
    lemma_u32_le_bytes(run(buf, at + 8, 4));
    lemma_u32_le_bytes(run(buf, at + 12, 4));
    lemma_u32_le_bytes(run(buf, at + 16, 4));
    assert(chunk.encoded(buf, at) =~= buf);
}

/// What is read does not depend on the sixteen reserved bytes: two buffers
/// that differ there alone give the same result.
pub proof fn lemma_reserved_bytes_ignored(a: Seq<u8>, b: Seq<u8>, at: int)
    requires
        0 <= at,
        a.len() == b.len(),
        forall|i: int| 0 <= i < a.len() && !(at + 20 <= i < at + 36) ==> a[i] == b[i],
    ensures
        CelExtraChunk::decoded(a, at) == CelExtraChunk::decoded(b, at),
{
    if available(a, at) >= 20 {
        assert(run(a, at, 4) =~= run(b, at, 4));
        assert(run(a, at + 4, 4) =~= run(b, at + 4, 4));
        assert(run(a, at + 8, 4) =~= run(b, at + 8, 4));
        assert(run(a, at + 12, 4) =~= run(b, at + 12, 4));
        assert(run(a, at + 16, 4) =~= run(b, at + 16, 4));
    }
}

/// Writing leaves every byte outside the twenty bytes of the fields as it
/// was, the reserved bytes among them.
pub proof fn lemma_write_keeps_other_bytes(chunk: CelExtraChunk, buf: Seq<u8>, at: int, i: int)
    requires
        0 <= i < buf.len(),
        !(at <= i < at + 20),
    ensures
        chunk.encoded(buf, at).len() == buf.len(),
        chunk.encoded(buf, at)[i] == buf[i],
{
}

} // verus!
