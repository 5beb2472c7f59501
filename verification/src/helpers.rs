//! The primitive encodings that the records are made of: raw byte runs,
//! little-endian integers, fixed-point numbers and length-prefixed strings.

use crate::cursor::{available, overwrite, run, ByteCursor};
use crate::endian::{
    le_read_u16, le_read_u32, le_write_u16, le_write_u32, lemma_u16_le_value, u16_from_le,
    u16_to_le, u32_from_le, u32_to_le,
};
use crate::error::CodecError;
use crate::fixed_point::U16F16;
use vstd::array::array_as_slice;
use vstd::prelude::*;
use vstd::slice::{slice_subrange, slice_to_vec};
use vstd::utf8::{decode_utf8, encode_utf8, encode_utf8_decode_utf8, valid_utf8};

verus! {

/// Reads exactly `length` bytes. Fails, and leaves the cursor where it was,
/// when fewer remain.
pub fn read_bytes(read: &mut ByteCursor, length: usize) -> (res: Result<Vec<u8>, CodecError>)
    ensures
        final(read).bytes == old(read).bytes,
        match res {
            Ok(bytes) => {
                &&& old(read).has(length as nat)
                &&& bytes@ == old(read).window(length as nat)
                &&& final(read).position == old(read).position + length
            },
            Err(e) => {
                &&& e == CodecError::UnexpectedEof
                &&& !old(read).has(length as nat)
                &&& final(read).position == old(read).position
            },
        },
{
    if read.remaining() < length {
        return Err(CodecError::UnexpectedEof);
    }
    if length == 0 {
        return Ok(Vec::new());
    }
    let start = read.position;
    let end = start + length;
    let bytes = slice_to_vec(slice_subrange(read.bytes.as_slice(), start, end));
    read.position = end;
    Ok(bytes)
}

/// Writes all of `data` over the bytes at the position. Fails, and changes
/// nothing, when fewer than `data.len()` bytes remain.
pub fn write_bytes(wtr: &mut ByteCursor, data: &[u8]) -> (res: Result<(), CodecError>)
    ensures
        match res {
            Ok(()) => {
                &&& old(wtr).has(data@.len())
                &&& final(wtr).bytes@ == overwrite(
                    old(wtr).bytes@,
                    old(wtr).position as int,
                    data@,
                )
                &&& final(wtr).position == old(wtr).position + data@.len()
            },
            Err(e) => {
                &&& e == CodecError::WriteZero
                &&& !old(wtr).has(data@.len())
                &&& *final(wtr) == *old(wtr)
            },
        },
{
    let count = data.len();
    if wtr.remaining() < count {
        return Err(CodecError::WriteZero);
    }
    let start = wtr.position;
    let mut done: usize = 0;
    while done < count
        invariant
            done <= count,
            count == data@.len(),
            wtr.position == start,
            start == old(wtr).position,
            old(wtr).has(count as nat),
            start + count <= usize::MAX,
            wtr.bytes@ == overwrite(old(wtr).bytes@, start as int, data@.take(done as int)),
        decreases count - done,
    {
        wtr.bytes[start + done] = data[done];
        done = done + 1;
    }
    assert(data@.take(count as int) =~= data@);
    wtr.position = start + count;
    Ok(())
}

/// Reads a 16-bit number, least significant byte first.
pub fn read_u16(read: &mut ByteCursor) -> (res: Result<u16, CodecError>)
    ensures
        final(read).bytes == old(read).bytes,
        match res {
            Ok(n) => {
                &&& old(read).has(2)
                &&& n == u16_from_le(old(read).window(2))
                &&& final(read).position == old(read).position + 2
            },
            Err(e) => {
                &&& e == CodecError::UnexpectedEof
                &&& !old(read).has(2)
                &&& final(read).position == old(read).position
            },
        },
{
    if read.remaining() < 2 {
        return Err(CodecError::UnexpectedEof);
    }
    let start = read.position;
    let field = slice_subrange(read.bytes.as_slice(), start, start + 2);
    assert(field@.subrange(0, 2) =~= read.window(2));
    let n = le_read_u16(field);
    read.position = start + 2;
    Ok(n)
}

/// Reads a 32-bit number, least significant byte first.
pub fn read_u32(read: &mut ByteCursor) -> (res: Result<u32, CodecError>)
    ensures
        final(read).bytes == old(read).bytes,
        match res {
            Ok(n) => {
                &&& old(read).has(4)
                &&& n == u32_from_le(old(read).window(4))
                &&& final(read).position == old(read).position + 4
            },
            Err(e) => {
                &&& e == CodecError::UnexpectedEof
                &&& !old(read).has(4)
                &&& final(read).position == old(read).position
            },
        },
{
    if read.remaining() < 4 {
        return Err(CodecError::UnexpectedEof);
    }
    let start = read.position;
    let field = slice_subrange(read.bytes.as_slice(), start, start + 4);
    assert(field@.subrange(0, 4) =~= read.window(4));
    let n = le_read_u32(field);
    read.position = start + 4;
    Ok(n)
}

/// Writes a 16-bit number, least significant byte first.
pub fn write_u16(wtr: &mut ByteCursor, n: u16) -> (res: Result<(), CodecError>)
    ensures
        match res {
            Ok(()) => {
                &&& old(wtr).has(2)
                &&& final(wtr).bytes@ == overwrite(
                    old(wtr).bytes@,
                    old(wtr).position as int,
                    u16_to_le(n),
                )
                &&& final(wtr).position == old(wtr).position + 2
            },
            Err(e) => {
                &&& e == CodecError::WriteZero
                &&& !old(wtr).has(2)
                &&& *final(wtr) == *old(wtr)
            },
        },
{
    let field = le_write_u16(n);
    write_bytes(wtr, array_as_slice(&field))
}

/// Writes a 32-bit number, least significant byte first.
pub fn write_u32(wtr: &mut ByteCursor, n: u32) -> (res: Result<(), CodecError>)
    ensures
        match res {
            Ok(()) => {
                &&& old(wtr).has(4)
                &&& final(wtr).bytes@ == overwrite(
                    old(wtr).bytes@,
                    old(wtr).position as int,
                    u32_to_le(n),
                )
                &&& final(wtr).position == old(wtr).position + 4
            },
            Err(e) => {
                &&& e == CodecError::WriteZero
                &&& !old(wtr).has(4)
                &&& *final(wtr) == *old(wtr)
            },
        },
{
    let field = le_write_u32(n);
    write_bytes(wtr, array_as_slice(&field))
}

/// Reads a fixed-point number: four bytes, least significant first, taken
/// as its raw bits.
pub fn read_fixed_point_number_16_16(read: &mut ByteCursor) -> (res: Result<U16F16, CodecError>)
    ensures
        final(read).bytes == old(read).bytes,
        match res {
            Ok(number) => {
                &&& old(read).has(4)
                &&& number.bits == u32_from_le(old(read).window(4))
                &&& final(read).position == old(read).position + 4
            },
            Err(e) => {
                &&& e == CodecError::UnexpectedEof
                &&& !old(read).has(4)
                &&& final(read).position == old(read).position
            },
        },
{
    let bits = read_u32(read)?;
    Ok(U16F16::from_bits(bits))
}

/// Writes a fixed-point number: its raw bits as four bytes, least
/// significant first.
pub fn write_fixed_point_number_16_16(wtr: &mut ByteCursor, number: &U16F16) -> (res: Result<
    (),
    CodecError,
>)
    ensures
        match res {
            Ok(()) => {
                &&& old(wtr).has(4)
                &&& final(wtr).bytes@ == overwrite(
                    old(wtr).bytes@,
                    old(wtr).position as int,
                    u32_to_le(number.bits),
                )
                &&& final(wtr).position == old(wtr).position + 4
            },
            Err(e) => {
                &&& e == CodecError::WriteZero
                &&& !old(wtr).has(4)
                &&& *final(wtr) == *old(wtr)
            },
        },
{
    let bits = number.to_bits();
    write_u32(wtr, bits)
}

/// The error of `String::from_utf8`; nothing of it is looked at.
#[verifier::external_type_specification]
#[verifier::external_body]
pub struct ExFromUtf8Error(std::string::FromUtf8Error);

/// `String::from_utf8` succeeds on the bytes that are valid UTF-8 and on no
/// others, and the string it gives is made of just those bytes.
pub assume_specification[ String::from_utf8 ](vec: Vec<u8>) -> (res: Result<
    String,
    std::string::FromUtf8Error,
>)
    ensures
        res is Ok <==> valid_utf8(vec@),
        res matches Ok(text) ==> encode_utf8(text@) == vec@,
;

/// The most bytes that a string can have on the wire.
pub const MAX_STRING_LEN: usize = 65535;

/// The string that the bytes of `buf` from `at` on hold, and the place
/// where it ends; or why they hold none. A string is a 16-bit length, least
/// significant byte first, and then that many bytes of UTF-8.
pub open spec fn decoded_string(buf: Seq<u8>, at: int) -> Result<(Seq<char>, int), CodecError> {
    if available(buf, at) < 2 {
        Err(CodecError::UnexpectedEof)
    } else {
        let length = u16_from_le(run(buf, at, 2)) as nat;
        if available(buf, at + 2) < length {
            Err(CodecError::UnexpectedEof)
        } else if !valid_utf8(run(buf, at + 2, length)) {
            Err(CodecError::InvalidUtf8)
        } else {
            Ok((decode_utf8(run(buf, at + 2, length)), at + 2 + length))
        }
    }
}

/// `buf` after the string `text` was written at `at`: the number of its
/// bytes, then the bytes.
pub open spec fn encoded_string(text: Seq<char>, buf: Seq<u8>, at: int) -> Seq<u8>
    recommends
        encode_utf8(text).len() <= MAX_STRING_LEN,
{
    overwrite(
        overwrite(buf, at, u16_to_le(encode_utf8(text).len() as u16)),
        at + 2,
        encode_utf8(text),
    )
}

/// Reads a string. On failure the cursor stays where it was.
pub fn read_string(read: &mut ByteCursor) -> (res: Result<String, CodecError>)
    ensures
        final(read).bytes == old(read).bytes,
        match res {
            Ok(text) => decoded_string(old(read).bytes@, old(read).position as int) == Ok::<
                (Seq<char>, int),
                CodecError,
            >((text@, final(read).position as int)),
            Err(e) => {
                &&& decoded_string(old(read).bytes@, old(read).position as int) == Err::<
                    (Seq<char>, int),
                    CodecError,
                >(e)
                &&& final(read).position == old(read).position
            },
        },
{
    let start = read.position;
    let length = read_u16(read)? as usize;
    let bytes = match read_bytes(read, length) {
        Ok(bytes) => bytes,
        Err(e) => {
            read.position = start;
            return Err(e);
        },
    };
    match String::from_utf8(bytes) {
        Ok(text) => {
            proof {
                encode_utf8_decode_utf8(text@);
            }
            Ok(text)
        },
        Err(_) => {
            read.position = start;
            Err(CodecError::InvalidUtf8)
        },
    }
}

/// Writes a string. Fails, and writes nothing, when the string has more
/// than 65535 bytes or the buffer cannot hold all of it.
pub fn write_string(wtr: &mut ByteCursor, string: &str) -> (res: Result<(), CodecError>)
    ensures
        match res {
            Ok(()) => {
                &&& encode_utf8(string@).len() <= MAX_STRING_LEN
                &&& old(wtr).has(2 + encode_utf8(string@).len())
                &&& final(wtr).bytes@ == encoded_string(
                    string@,
                    old(wtr).bytes@,
                    old(wtr).position as int,
                )
                &&& final(wtr).position == old(wtr).position + 2 + encode_utf8(string@).len()
            },
            Err(e) => {
                &&& *final(wtr) == *old(wtr)
                &&& if encode_utf8(string@).len() > MAX_STRING_LEN {
                    e == CodecError::StringTooLong
                } else {
                    e == CodecError::WriteZero && !old(wtr).has(2 + encode_utf8(string@).len())
                }
            },
        },
{
    let bytes = string.as_bytes();
    let length = bytes.len();
    if length > MAX_STRING_LEN {
        return Err(CodecError::StringTooLong);
    }
    if wtr.remaining() < 2 + length {
        return Err(CodecError::WriteZero);
    }
    write_u16(wtr, length as u16)?;
    write_bytes(wtr, bytes)?;
    Ok(())
}

/// Writing a string and reading at the same place gives the string back.
pub proof fn lemma_string_round_trip(text: Seq<char>, buf: Seq<u8>, at: int)
    requires
        0 <= at,
        encode_utf8(text).len() <= MAX_STRING_LEN,
        at + 2 + encode_utf8(text).len() <= buf.len(),
    ensures
        decoded_string(encoded_string(text, buf, at), at) == Ok::<(Seq<char>, int), CodecError>(
            (text, at + 2 + encode_utf8(text).len()),
        ),
{
    broadcast use vstd::utf8::encode_utf8_valid_utf8;

    let bytes = encode_utf8(text);
    let out = encoded_string(text, buf, at);
    lemma_u16_le_value(bytes.len() as u16);
    encode_utf8_decode_utf8(text);
    assert(run(out, at, 2) =~= u16_to_le(bytes.len() as u16));
    assert(run(out, at + 2, bytes.len()) =~= bytes);
}

} // verus!
