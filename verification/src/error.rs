//! The ways a codec can fail.

use vstd::prelude::*;

verus! {

/// Why a read or a write could not be done.
#[derive(Debug, Clone, Copy, PartialEq, Eq, Structural)]
pub enum CodecError {
    /// A read asked for more bytes than lie between the position and the end
    /// of the buffer.
    UnexpectedEof,
    /// A write needs more room than lies between the position and the end of
    /// the buffer.
    WriteZero,
    /// A skip would move the position past the largest position there is.
    InvalidSeek,
    /// The tag read for a profile type names no profile type; the tag is
    /// carried along.
    InvalidProfileType(u16),
    /// The bytes of a string are not valid UTF-8.
    InvalidUtf8,
    /// The string has more bytes than a 16-bit length can count.
    StringTooLong,
    /// A colour profile record holds ICC bytes though its profile type is
    /// not the embedded one.
    UnexpectedIccProfile,
}

} // verus!
