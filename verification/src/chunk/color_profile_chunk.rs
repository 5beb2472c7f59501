//! The colour profile record: which colour profile a sprite uses, a gamma,
//! and, for an embedded ICC profile, the profile itself as opaque bytes.
//!
//! | offset | size | field                                      |
//! |--------|------|--------------------------------------------|
//! | 0      | 2    | profile type (0, 1 or 2)                   |
//! | 2      | 2    | flags (bit 0: special fixed gamma)         |
//! | 4      | 4    | fixed gamma, 16.16 fixed point             |
//! | 8      | 8    | reserved                                   |
//! | 16     | 4    | ICC length, only for profile type 2        |
//! | 20     | N    | ICC bytes, only for profile type 2         |
//!
//! All numbers are little-endian.

use crate::cursor::{available, overwrite, run, ByteCursor};
use crate::endian::{
    lemma_u16_le_bytes, lemma_u16_le_value, lemma_u32_le_bytes, lemma_u32_le_value, u16_from_le,
    u16_to_le, u32_from_le, u32_to_le,
};
use crate::error::CodecError;
use crate::fixed_point::U16F16;
use crate::helpers::{
    read_bytes, read_fixed_point_number_16_16, read_u16, read_u32, write_bytes,
    write_fixed_point_number_16_16, write_u16,
};
use vstd::prelude::*;

verus! {

/// The kinds of colour profile. The set is closed: a tag that names none of
/// them is an error, never some default kind.
#[derive(Debug, Copy, Clone, Eq, PartialEq, Structural)]
pub enum ProfileType {
    NoProfile,
    SRgb,
    EmbeddedIccProfile,
}

impl ProfileType {
    /// The tag that stands for the kind on the wire.
    pub open spec fn spec_tag(self) -> u16 {
        match self {
            ProfileType::NoProfile => 0,
            ProfileType::SRgb => 1,
            ProfileType::EmbeddedIccProfile => 2,
        }
    }

    /// The kind that a tag stands for, if any.
    pub open spec fn spec_from_tag(tag: u16) -> Option<ProfileType> {
        if tag == 0 {
            Some(ProfileType::NoProfile)
        } else if tag == 1 {
            Some(ProfileType::SRgb)
        } else if tag == 2 {
            Some(ProfileType::EmbeddedIccProfile)
        } else {
            None
        }
    }

    /// The tag that stands for the kind on the wire.
    pub fn tag(self) -> (tag: u16)
        ensures
            tag == self.spec_tag(),
    {
        match self {
            ProfileType::NoProfile => 0,
            ProfileType::SRgb => 1,
            ProfileType::EmbeddedIccProfile => 2,
        }
    }

    /// The kind that `tag` stands for. A tag that stands for none is handed
    /// back in the error.
    pub fn from_tag(tag: u16) -> (res: Result<ProfileType, CodecError>)
        ensures
            match res {
                Ok(kind) => Self::spec_from_tag(tag) == Some(kind),
                Err(e) => Self::spec_from_tag(tag).is_none() && e == CodecError::InvalidProfileType(
                    tag,
                ),
            },
    {
        match tag {
            0 => Ok(ProfileType::NoProfile),
            1 => Ok(ProfileType::SRgb),
            2 => Ok(ProfileType::EmbeddedIccProfile),
            _ => Err(CodecError::InvalidProfileType(tag)),
        }
    }
}

/// Every kind is the kind that its tag stands for, and the tags that stand
/// for a kind are 0, 1 and 2.
pub proof fn lemma_profile_type_tags(kind: ProfileType, tag: u16)
    ensures
        ProfileType::spec_from_tag(kind.spec_tag()) == Some(kind),
        ProfileType::spec_from_tag(tag).is_some() <==> tag <= 2,
        ProfileType::spec_from_tag(tag) == Some(kind) <==> tag == kind.spec_tag(),
{
}

/// The capabilities of a colour profile record, one bit each. Bit 0 is the
/// only one with a name.
#[derive(Debug, Copy, Clone, Eq, PartialEq, Structural)]
pub struct Flags {
    pub bits: u16,
}

impl Flags {
    /// All the bits that have a name.
    pub const ALL: u16 = 1;

    /// Bit 0 alone: the gamma of the record is to be used.
    pub fn special_fixed_gamma() -> (flags: Self)
        ensures
            flags.bits == 1,
    {
        Flags { bits: 1 }
    }

    /// The flags whose named bits are those set in `bits`; the bits without
    /// a name are dropped.
    pub fn from_bits_truncate(bits: u16) -> (flags: Self)
        ensures
            flags.bits == bits & Self::ALL,
    {
        Flags { bits: bits & Self::ALL }
    }

    /// The bits as they are held, also those without a name.
    pub fn bits(&self) -> (bits: u16)
        ensures
            bits == self.bits,
    {
        self.bits
    }

    /// Every bit that is set in `other` is set here too.
    pub fn contains(&self, other: Flags) -> (all_set: bool)
        ensures
            all_set == (self.bits & other.bits == other.bits),
    {
        self.bits & other.bits == other.bits
    }
}

/// What truncation keeps of any bits is bit 0 and nothing else, and
/// truncating again changes nothing.
pub proof fn lemma_truncated_flags(bits: u16)
    ensures
        bits & Flags::ALL <= 1,
        (bits & Flags::ALL == 1) <==> bits % 2 == 1,
        (bits & Flags::ALL) & Flags::ALL == bits & Flags::ALL,
{
    assert(bits & 1 <= 1) by (bit_vector);
    assert((bits & 1 == 1) <==> bits % 2 == 1) by (bit_vector);
    assert((bits & 1) & 1 == bits & 1) by (bit_vector);
}

/// A colour profile record. The ICC bytes are opaque here; they are present
/// only with the embedded profile type (see [`ColorProfile::consistent`]).
#[derive(Debug, Clone, PartialEq, Eq)]
pub struct ColorProfileChunk {
    pub profile_type: ProfileType,
    pub flags: Flags,
    pub fixed_gamma: U16F16,
    pub icc_profile: Vec<u8>,
}

/// What a colour profile record holds, as a mathematical value.
pub struct ColorProfile {
    pub profile_type: ProfileType,
    pub flags: Flags,
    pub fixed_gamma: U16F16,
    pub icc_profile: Seq<u8>,
}

impl View for ColorProfileChunk {
    type V = ColorProfile;

    open spec fn view(&self) -> ColorProfile {
        ColorProfile {
            profile_type: self.profile_type,
            flags: self.flags,
            fixed_gamma: self.fixed_gamma,
            icc_profile: self.icc_profile@,
        }
    }
}

/// The number of bytes that the fields in front of the reserved bytes take.
pub const HEADER_LEN: usize = 8;

/// The number of reserved bytes, which lie between the fixed gamma and what
/// follows and mean nothing.
pub const RESERVED_LEN: usize = 8;

impl ColorProfile {
    /// Only the embedded profile type comes with ICC bytes.
    pub open spec fn consistent(self) -> bool {
        self.profile_type != ProfileType::EmbeddedIccProfile ==> self.icc_profile.len() == 0
    }

    /// The eight bytes of the fields in front of the reserved bytes.
    pub open spec fn header_bytes(self) -> Seq<u8> {
        u16_to_le(self.profile_type.spec_tag()) + u16_to_le(self.flags.bits) + u32_to_le(
            self.fixed_gamma.bits,
        )
    }

    /// The number of bytes that the record takes when written.
    pub open spec fn encoded_len(self) -> nat {
        16 + self.icc_profile.len()
    }

    /// `buf` after the record was written at `at`: the fields, with the
    /// flags as they are held; the reserved bytes as `buf` had them; then
    /// the ICC bytes, with no length in front of them.
    pub open spec fn encoded(self, buf: Seq<u8>, at: int) -> Seq<u8> {
        overwrite(overwrite(buf, at, self.header_bytes()), at + 16, self.icc_profile)
    }

    /// The record that the bytes of `buf` from `at` on hold, and the place
    /// where it ends; or why they hold none.
    pub open spec fn decoded(buf: Seq<u8>, at: int) -> Result<(ColorProfile, int), CodecError> {
        if available(buf, at) < 2 {
            Err(CodecError::UnexpectedEof)
        } else {
            let tag = u16_from_le(run(buf, at, 2)) as u16;
            match ProfileType::spec_from_tag(tag) {
                None => Err(CodecError::InvalidProfileType(tag)),
                Some(profile_type) => if available(buf, at) < 8 {
                    Err(CodecError::UnexpectedEof)
                } else if at + 16 > usize::MAX {
                    Err(CodecError::InvalidSeek)
                } else {
                    let flags = Flags { bits: (u16_from_le(run(buf, at + 2, 2)) as u16) & Flags::ALL };
                    let fixed_gamma = U16F16 { bits: u32_from_le(run(buf, at + 4, 4)) as u32 };
                    if profile_type != ProfileType::EmbeddedIccProfile {
                        Ok(
                            (
                                ColorProfile {
                                    profile_type,
                                    flags,
                                    fixed_gamma,
                                    icc_profile: Seq::empty(),
                                },
                                at + 16,
                            ),
                        )
                    } else if available(buf, at + 16) < 4 {
                        Err(CodecError::UnexpectedEof)
                    } else {
                        let length = u32_from_le(run(buf, at + 16, 4)) as nat;
                        if available(buf, at + 20) < length {
                            Err(CodecError::UnexpectedEof)
                        } else {
                            Ok(
                                (
                                    ColorProfile {
                                        profile_type,
                                        flags,
                                        fixed_gamma,
                                        icc_profile: run(buf, at + 20, length),
                                    },
                                    at + 20 + length,
                                ),
                            )
                        }
                    }
                },
            }
        }
    }
}

impl ColorProfileChunk {
    /// Only the embedded profile type comes with ICC bytes.
    pub fn is_consistent(&self) -> (consistent: bool)
        ensures
            consistent == self@.consistent(),
    {
        self.profile_type == ProfileType::EmbeddedIccProfile || self.icc_profile.len() == 0
    }

    /// The gamma, as the fixed-point number it is.
    pub fn fixed_gamma(&self) -> (number: U16F16)
        ensures
            number == self.fixed_gamma,
    {
        self.fixed_gamma
    }

    /// Reads the fields one after the other and stops at the first that
    /// fails, with the cursor wherever it then is.
    fn read_fields(read: &mut ByteCursor) -> (res: Result<Self, CodecError>)
        ensures
            final(read).bytes == old(read).bytes,
            match res {
                Ok(chunk) => ColorProfile::decoded(old(read).bytes@, old(read).position as int)
                    == Ok::<(ColorProfile, int), CodecError>(
                    (chunk@, final(read).position as int),
                ),
                Err(e) => ColorProfile::decoded(old(read).bytes@, old(read).position as int)
                    == Err::<(ColorProfile, int), CodecError>(e),
            },
    {
        let tag = read_u16(read)?;
        let profile_type = ProfileType::from_tag(tag)?;
        let flags = Flags::from_bits_truncate(read_u16(read)?);
        let fixed_gamma = read_fixed_point_number_16_16(read)?;
        read.skip(RESERVED_LEN)?;

        let icc_profile = if profile_type == ProfileType::EmbeddedIccProfile {
            let icc_profile_length = read_u32(read)? as usize;
            read_bytes(read, icc_profile_length)?
        } else {
            Vec::new()
        };

        Ok(ColorProfileChunk { profile_type, flags, fixed_gamma, icc_profile })
    }

    /// Reads a record at the position and moves the position to its end.
    /// The reserved bytes are passed over unread and need not all exist.
    /// On failure the cursor stays where it was.
    pub fn from_read(read: &mut ByteCursor) -> (res: Result<Self, CodecError>)
        ensures
            final(read).bytes == old(read).bytes,
            match res {
                Ok(chunk) => {
                    &&& ColorProfile::decoded(old(read).bytes@, old(read).position as int) == Ok::<
                        (ColorProfile, int),
                        CodecError,
                    >((chunk@, final(read).position as int))
                    &&& chunk@.consistent()
                },
                Err(e) => {
                    &&& ColorProfile::decoded(old(read).bytes@, old(read).position as int)
                        == Err::<(ColorProfile, int), CodecError>(e)
                    &&& final(read).position == old(read).position
                },
            },
    {
        let start = read.position;
        let res = Self::read_fields(read);
        if res.is_err() {
            read.position = start;
        }
        res
    }
}

impl ColorProfileChunk {
    /// Writes the record at the position and moves the position to its end:
    /// profile type, flags as held, gamma, the reserved bytes left as they
    /// are, then the ICC bytes with no length in front of them. The buffer
    /// must hold the whole record, and only the embedded profile type may
    /// come with ICC bytes; else nothing is written.
    pub fn write(&self, wtr: &mut ByteCursor) -> (res: Result<(), CodecError>)
        ensures
            match res {
                Ok(()) => {
                    &&& self@.consistent()
                    &&& old(wtr).has(self@.encoded_len())
                    &&& final(wtr).bytes@ == self@.encoded(
                        old(wtr).bytes@,
                        old(wtr).position as int,
                    )
                    &&& final(wtr).position == old(wtr).position + self@.encoded_len()
                },
                Err(e) => {
                    &&& *final(wtr) == *old(wtr)
                    &&& if !self@.consistent() {
                        e == CodecError::UnexpectedIccProfile
                    } else {
                        e == CodecError::WriteZero && !old(wtr).has(self@.encoded_len())
                    }
                },
            },
    {
        if !self.is_consistent() {
            return Err(CodecError::UnexpectedIccProfile);
        }
        let room = wtr.remaining();
        if room < HEADER_LEN + RESERVED_LEN || room - (HEADER_LEN + RESERVED_LEN)
            < self.icc_profile.len() {
            return Err(CodecError::WriteZero);
        }
        write_u16(wtr, self.profile_type.tag())?;
        write_u16(wtr, self.flags.bits())?;
        write_fixed_point_number_16_16(wtr, &self.fixed_gamma)?;
        wtr.skip_within(RESERVED_LEN)?;
        write_bytes(wtr, self.icc_profile.as_slice())?;
        assert(wtr.bytes@ =~= self@.encoded(old(wtr).bytes@, old(wtr).position as int));
        Ok(())
    }
}

/// A record that was read is consistent: ICC bytes come only with the
/// embedded profile type. Without them the record ends after the reserved
/// bytes; with them, after the four bytes of their length and the bytes
/// themselves.
pub proof fn lemma_decoded_is_consistent(buf: Seq<u8>, at: int)
    ensures
        match ColorProfile::decoded(buf, at) {
            Ok((record, end)) => {
                &&& record.consistent()
                &&& record.flags.bits <= 1
                &&& if record.profile_type == ProfileType::EmbeddedIccProfile {
                    end == at + 20 + record.icc_profile.len()
                } else {
                    end == at + 16
                }
            },
            Err(_) => true,
        },
{
    if ColorProfile::decoded(buf, at) is Ok {
        let raw = u16_from_le(run(buf, at + 2, 2)) as u16;
        lemma_truncated_flags(raw);
    }
}

/// A record of a profile type other than the embedded one is read from its
/// first eight bytes alone: whatever comes after them, and however much, the
/// result is the same and has no ICC bytes.
pub proof fn lemma_trailing_bytes_ignored(a: Seq<u8>, b: Seq<u8>, at: int)
    requires
        0 <= at,
        available(a, at) >= 8,
        available(b, at) >= 8,
        run(a, at, 8) == run(b, at, 8),
        ProfileType::spec_from_tag(u16_from_le(run(a, at, 2)) as u16) != Some(
            ProfileType::EmbeddedIccProfile,
        ),
    ensures
        ColorProfile::decoded(a, at) == ColorProfile::decoded(b, at),
        ColorProfile::decoded(a, at) matches Ok((record, end)) ==> record.icc_profile.len() == 0
            && end == at + 16,
{
    assert forall|k: int| at <= k < at + 8 implies #[trigger] a[k] == b[k] by {
        assert(run(a, at, 8)[k - at] == a[k]);
        assert(run(b, at, 8)[k - at] == b[k]);
    }
    assert(run(a, at, 2) =~= run(b, at, 2));
    assert(run(a, at + 2, 2) =~= run(b, at + 2, 2));
    assert(run(a, at + 4, 4) =~= run(b, at + 4, 4));
}

/// An embedded profile of declared length 0 is read as no ICC bytes, and the
/// four bytes of the length are still consumed.
pub proof fn lemma_empty_embedded_profile(buf: Seq<u8>, at: int)
    requires
        0 <= at,
        at + 16 <= usize::MAX,
        available(buf, at) >= 20,
        u16_from_le(run(buf, at, 2)) == 2,
        u32_from_le(run(buf, at + 16, 4)) == 0,
    ensures
        ColorProfile::decoded(buf, at) matches Ok((record, end)) && record.profile_type
            == ProfileType::EmbeddedIccProfile && record.icc_profile.len() == 0 && end == at + 20,
{
}

/// What is read does not depend on the eight reserved bytes: two buffers
/// that differ there alone give the same result.
pub proof fn lemma_reserved_bytes_ignored(a: Seq<u8>, b: Seq<u8>, at: int)
    requires
        0 <= at,
        a.len() == b.len(),
        forall|i: int| 0 <= i < a.len() && !(at + 8 <= i < at + 16) ==> a[i] == b[i],
    ensures
        ColorProfile::decoded(a, at) == ColorProfile::decoded(b, at),
{
    if available(a, at) >= 2 {
        assert(run(a, at, 2) =~= run(b, at, 2));
    }
    if available(a, at) >= 8 {
        assert(run(a, at + 2, 2) =~= run(b, at + 2, 2));
        assert(run(a, at + 4, 4) =~= run(b, at + 4, 4));
    }
    if available(a, at + 16) >= 4 {
        assert(run(a, at + 16, 4) =~= run(b, at + 16, 4));
        let length = u32_from_le(run(a, at + 16, 4)) as nat;
        if available(a, at + 20) >= length {
            assert(run(a, at + 20, length) =~= run(b, at + 20, length));
        }
    }
}

/// Writing a consistent record without ICC bytes and reading at the same
/// place gives the record back, but for the flag bits without a name, which
/// are dropped.
pub proof fn lemma_round_trip_without_profile(record: ColorProfile, buf: Seq<u8>, at: int)
    requires
        0 <= at,
        at + 16 <= buf.len(),
        at + 16 <= usize::MAX,
        record.profile_type != ProfileType::EmbeddedIccProfile,
        record.consistent(),
    ensures
        ColorProfile::decoded(record.encoded(buf, at), at) == Ok::<(ColorProfile, int), CodecError>(
            (
                ColorProfile {
                    flags: Flags { bits: record.flags.bits & Flags::ALL },
                    ..record
                },
                at + 16,
            ),
        ),
{
    let out = record.encoded(buf, at);
    let tag = record.profile_type.spec_tag();
    lemma_u16_le_value(tag);
    lemma_u16_le_value(record.flags.bits);
    lemma_u32_le_value(record.fixed_gamma.bits);
    lemma_profile_type_tags(record.profile_type, tag);
    assert(run(out, at, 2) =~= u16_to_le(tag));
    assert(run(out, at + 2, 2) =~= u16_to_le(record.flags.bits));
    assert(run(out, at + 4, 4) =~= u32_to_le(record.fixed_gamma.bits));
    assert(record.icc_profile =~= Seq::<u8>::empty());
}

/// Reading a record without ICC bytes whose flags have no bit without a
/// name, and writing it at the same place, leaves the buffer as it was.
pub proof fn lemma_read_then_write_without_profile(buf: Seq<u8>, at: int)
    requires
        0 <= at,
        ColorProfile::decoded(buf, at) is Ok,
        ColorProfile::decoded(buf, at)->Ok_0.0.profile_type != ProfileType::EmbeddedIccProfile,
        u16_from_le(run(buf, at + 2, 2)) <= 1,
    ensures
        ColorProfile::decoded(buf, at)->Ok_0.0.encoded(buf, at) == buf,
{
    let record = ColorProfile::decoded(buf, at)->Ok_0.0;
    let tag = u16_from_le(run(buf, at, 2)) as u16;
    let raw = u16_from_le(run(buf, at + 2, 2)) as u16;
    assert(raw <= 1 ==> raw & 1 == raw) by (bit_vector);
    lemma_profile_type_tags(record.profile_type, tag);
    lemma_u16_le_bytes(run(buf, at, 2));
    lemma_u16_le_bytes(run(buf, at + 2, 2));
    lemma_u32_le_bytes(run(buf, at + 4, 4));
    assert(record.encoded(buf, at) =~= buf);
}

} // verus!
