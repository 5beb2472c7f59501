//! An addressable byte buffer of fixed size, with a position.

use crate::error::CodecError;
use vstd::prelude::*;

verus! {

/// A byte buffer and a position in it. Reads and writes start at the
/// position and move it forward; a write replaces bytes and never makes the
/// buffer longer. The position may lie past the end of the buffer: nothing
/// can then be read or written there.
#[derive(Debug, Clone, PartialEq, Eq)]
pub struct ByteCursor {
    pub bytes: Vec<u8>,
    pub position: usize,
}

/// `buf` with the bytes from `at` on replaced by `data`, as far as `data`
/// reaches; the length stays.
pub open spec fn overwrite(buf: Seq<u8>, at: int, data: Seq<u8>) -> Seq<u8> {
    Seq::new(buf.len(), |i: int| if at <= i < at + data.len() { data[i - at] } else { buf[i] })
}

/// The number of bytes of `buf` from `at` on: none when `at` lies past the
/// end.
pub open spec fn available(buf: Seq<u8>, at: int) -> nat {
    if 0 <= at <= buf.len() {
        (buf.len() - at) as nat
    } else {
        0
    }
}

/// The `count` bytes of `buf` that start at `at`.
pub open spec fn run(buf: Seq<u8>, at: int, count: nat) -> Seq<u8>
    recommends
        count <= available(buf, at),
{
    Seq::new(count, |i: int| buf[at + i])
}

impl ByteCursor {
    /// The number of bytes between the position and the end.
    pub open spec fn spec_remaining(&self) -> nat {
        available(self.bytes@, self.position as int)
    }

    /// At least `count` bytes lie between the position and the end.
    pub open spec fn has(&self, count: nat) -> bool {
        count <= self.spec_remaining()
    }

    /// The `count` bytes that start at the position.
    pub open spec fn window(&self, count: nat) -> Seq<u8>
        recommends
            self.has(count),
    {
        run(self.bytes@, self.position as int, count)
    }

    /// A cursor at the start of `bytes`.
    pub fn new(bytes: Vec<u8>) -> (cursor: Self)
        ensures
            cursor.bytes == bytes,
            cursor.position == 0,
    {
        ByteCursor { bytes, position: 0 }
    }

    /// The number of bytes between the position and the end.
    pub fn remaining(&self) -> (count: usize)
        ensures
            count == self.spec_remaining(),
            self.position + count <= usize::MAX,
    {
        if self.position <= self.bytes.len() {
            self.bytes.len() - self.position
        } else {
            0
        }
    }

    /// Moves the position forward by `count` without looking at the bytes
    /// passed over, which need not exist. Fails, and changes nothing, only
    /// when there is no such position.
    pub fn skip(&mut self, count: usize) -> (res: Result<(), CodecError>)
        ensures
            final(self).bytes == old(self).bytes,
            match res {
                Ok(()) => final(self).position == old(self).position + count,
                Err(e) => {
                    &&& e == CodecError::InvalidSeek
                    &&& old(self).position + count > usize::MAX
                    &&& final(self).position == old(self).position
                },
            },
    {
        match self.position.checked_add(count) {
            Some(next) => {
                self.position = next;
                Ok(())
            },
            None => Err(CodecError::InvalidSeek),
        }
    }

    /// Moves the position forward over `count` bytes of the buffer and
    /// leaves them as they are. Fails, and changes nothing, when fewer than
    /// `count` bytes remain.
    pub fn skip_within(&mut self, count: usize) -> (res: Result<(), CodecError>)
        ensures
            final(self).bytes == old(self).bytes,
            match res {
                Ok(()) => old(self).has(count as nat) && final(self).position == old(self).position
                    + count,
                Err(e) => {
                    &&& e == CodecError::WriteZero
                    &&& !old(self).has(count as nat)
                    &&& final(self).position == old(self).position
                },
            },
    {
        if self.remaining() < count {
            return Err(CodecError::WriteZero);
        }
        self.position = self.position + count;
        Ok(())
    }
}

} // verus!
