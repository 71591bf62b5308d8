//! An in-memory, seekable byte source and the endian-aware integer views
//! on it that the decoder states its contracts over.
//!
//! The TIFF grammar is specified against a mathematical byte sequence; the
//! spec functions here read fixed-width integers of either byte order out of
//! that sequence, and [`ByteCursor`] is the executable counterpart: a byte
//! buffer with an absolute position, whose reads are proved to return exactly
//! those integers.

use vstd::prelude::*;

use crate::error::TiffError;

verus! {

/// The 16-bit integer that bytes `pos` and `pos + 1` of `data` spell in the
/// given byte order (`le` true for little-endian).
pub open spec fn u16_at(data: Seq<u8>, pos: int, le: bool) -> u16
    recommends
        0 <= pos,
        pos + 2 <= data.len(),
{
    if le {
        (data[pos] + data[pos + 1] * 0x100) as u16
    } else {
        (data[pos] * 0x100 + data[pos + 1]) as u16
    }
}

/// The 32-bit integer that bytes `pos .. pos + 4` of `data` spell in the
/// given byte order.
pub open spec fn u32_at(data: Seq<u8>, pos: int, le: bool) -> u32
    recommends
        0 <= pos,
        pos + 4 <= data.len(),
{
    if le {
        (data[pos] + data[pos + 1] * 0x100 + data[pos + 2] * 0x1_0000 + data[pos + 3]
            * 0x100_0000) as u32
    } else {
        (data[pos] * 0x100_0000 + data[pos + 1] * 0x1_0000 + data[pos + 2] * 0x100 + data[pos
            + 3]) as u32
    }
}

/// The 64-bit integer that bytes `pos .. pos + 8` of `data` spell in the
/// given byte order.
pub open spec fn u64_at(data: Seq<u8>, pos: int, le: bool) -> u64
    recommends
        0 <= pos,
        pos + 8 <= data.len(),
{
    if le {
        (data[pos] + data[pos + 1] * 0x100 + data[pos + 2] * 0x1_0000 + data[pos + 3] * 0x100_0000
            + data[pos + 4] * 0x1_0000_0000 + data[pos + 5] * 0x100_0000_0000 + data[pos + 6]
            * 0x1_0000_0000_0000 + data[pos + 7] * 0x100_0000_0000_0000) as u64
    } else {
        (data[pos] * 0x100_0000_0000_0000 + data[pos + 1] * 0x1_0000_0000_0000 + data[pos + 2]
            * 0x100_0000_0000 + data[pos + 3] * 0x1_0000_0000 + data[pos + 4] * 0x100_0000 + data[
            pos + 5] * 0x1_0000 + data[pos + 6] * 0x100 + data[pos + 7]) as u64
    }
}

/// The width in bytes of an offset field: 8 in a BigTIFF, 4 in a Classic
/// TIFF.
pub open spec fn offset_width(btf: bool) -> int {
    if btf {
        8
    } else {
        4
    }
}

/// An offset field read at `pos`: a 64-bit integer in a BigTIFF, a 32-bit
/// integer widened to 64 bits in a Classic TIFF.
pub open spec fn offset_at(data: Seq<u8>, pos: int, btf: bool, le: bool) -> u64
    recommends
        0 <= pos,
        pos + offset_width(btf) <= data.len(),
{
    if btf {
        u64_at(data, pos, le)
    } else {
        u32_at(data, pos, le) as u64
    }
}

/// A finite byte source with synchronous random access: the whole content is
/// held in memory, and a 64-bit absolute position marks where the next read
/// begins.  Seeking past the end is allowed; a read past the end fails.
pub struct ByteCursor {
    /// The bytes of the source.
    pub data: Vec<u8>,
    /// The absolute position of the next read.
    pub pos: u64,
}

impl ByteCursor {
    /// Wraps a byte buffer as a cursor positioned at its start.
    pub fn new(data: Vec<u8>) -> (c: ByteCursor)
        ensures
            c.data@ == data@,
            c.pos == 0,
    {
        ByteCursor { data, pos: 0 }
    }

    /// The length of the source in bytes.
    pub open spec fn len(&self) -> int {
        self.data@.len() as int
    }

    /// Moves the position to an absolute offset.  The offset may lie beyond
    /// the end of the source; only a later read notices.
    pub fn seek(&mut self, offset: u64)
        ensures
            final(self).data@ == old(self).data@,
            final(self).pos == offset,
    {
        self.pos = offset;
    }

    /// The current absolute position.
    pub fn position(&self) -> (r: u64)
        ensures
            r == self.pos,
    {
        self.pos
    }

    /// True if a read of `n` more bytes stays within the source.
    fn has(&self, n: u64) -> (r: bool)
        requires
            n <= 8,
        ensures
            r <==> self.pos + n <= self.len(),
            self.len() <= usize::MAX,
    {
        let len = self.data.len() as u64;
        self.pos <= len && len - self.pos >= n
    }

    /// Reads one byte and advances the position.
    pub fn read_u8(&mut self) -> (r: Result<u8, TiffError>)
        ensures
            final(self).data@ == old(self).data@,
            old(self).pos + 1 <= old(self).len() ==> r == Ok::<u8, TiffError>(
                old(self).data@[old(self).pos as int],
            ) && final(self).pos == old(self).pos + 1,
            old(self).pos + 1 > old(self).len() ==> r == Err::<u8, TiffError>(
                TiffError::UnexpectedEndOfBuffer,
            ) && final(self).pos == old(self).pos,
    {
        if !self.has(1) {
            return Err(TiffError::UnexpectedEndOfBuffer);
        }
        let i = self.pos as usize;
        let b = self.data[i];
        self.pos = self.pos + 1;
        Ok(b)
    }

    /// Reads a 16-bit integer in the given byte order and advances the
    /// position by 2.
    pub fn read_u16(&mut self, le: bool) -> (r: Result<u16, TiffError>)
        ensures
            final(self).data@ == old(self).data@,
            old(self).pos + 2 <= old(self).len() ==> r == Ok::<u16, TiffError>(
                u16_at(old(self).data@, old(self).pos as int, le),
            ) && final(self).pos == old(self).pos + 2,
            old(self).pos + 2 > old(self).len() ==> r == Err::<u16, TiffError>(
                TiffError::UnexpectedEndOfBuffer,
            ) && final(self).pos == old(self).pos,
    {
        if !self.has(2) {
            return Err(TiffError::UnexpectedEndOfBuffer);
        }
        let i = self.pos as usize;
        let b0 = self.data[i] as u16;
        let b1 = self.data[i + 1] as u16;
        self.pos = self.pos + 2;
        if le {
            Ok(b0 + b1 * 0x100)
        } else {
            Ok(b0 * 0x100 + b1)
        }
    }

    /// Reads a 32-bit integer in the given byte order and advances the
    /// position by 4.
    pub fn read_u32(&mut self, le: bool) -> (r: Result<u32, TiffError>)
        ensures
            final(self).data@ == old(self).data@,
            old(self).pos + 4 <= old(self).len() ==> r == Ok::<u32, TiffError>(
                u32_at(old(self).data@, old(self).pos as int, le),
            ) && final(self).pos == old(self).pos + 4,
            old(self).pos + 4 > old(self).len() ==> r == Err::<u32, TiffError>(
                TiffError::UnexpectedEndOfBuffer,
            ) && final(self).pos == old(self).pos,
    {
        if !self.has(4) {
            return Err(TiffError::UnexpectedEndOfBuffer);
        }
        let i = self.pos as usize;
        let b0 = self.data[i] as u32;
        let b1 = self.data[i + 1] as u32;
        let b2 = self.data[i + 2] as u32;
        let b3 = self.data[i + 3] as u32;
        self.pos = self.pos + 4;
        if le {
            Ok(b0 + b1 * 0x100 + b2 * 0x1_0000 + b3 * 0x100_0000)
        } else {
            Ok(b0 * 0x100_0000 + b1 * 0x1_0000 + b2 * 0x100 + b3)
        }
    }

    /// Reads a 64-bit integer in the given byte order and advances the
    /// position by 8.
    pub fn read_u64(&mut self, le: bool) -> (r: Result<u64, TiffError>)
        ensures
            final(self).data@ == old(self).data@,
            old(self).pos + 8 <= old(self).len() ==> r == Ok::<u64, TiffError>(
                u64_at(old(self).data@, old(self).pos as int, le),
            ) && final(self).pos == old(self).pos + 8,
            old(self).pos + 8 > old(self).len() ==> r == Err::<u64, TiffError>(
                TiffError::UnexpectedEndOfBuffer,
            ) && final(self).pos == old(self).pos,
    {
        if !self.has(8) {
            return Err(TiffError::UnexpectedEndOfBuffer);
        }
        let i = self.pos as usize;
        let b0 = self.data[i] as u64;
        let b1 = self.data[i + 1] as u64;
        let b2 = self.data[i + 2] as u64;
        let b3 = self.data[i + 3] as u64;
        let b4 = self.data[i + 4] as u64;
        let b5 = self.data[i + 5] as u64;
        let b6 = self.data[i + 6] as u64;
        let b7 = self.data[i + 7] as u64;
        self.pos = self.pos + 8;
        if le {
            Ok(
                b0 + b1 * 0x100 + b2 * 0x1_0000 + b3 * 0x100_0000 + b4 * 0x1_0000_0000 + b5
                    * 0x100_0000_0000 + b6 * 0x1_0000_0000_0000 + b7 * 0x100_0000_0000_0000,
            )
        } else {
            Ok(
                b0 * 0x100_0000_0000_0000 + b1 * 0x1_0000_0000_0000 + b2 * 0x100_0000_0000 + b3
                    * 0x1_0000_0000 + b4 * 0x100_0000 + b5 * 0x1_0000 + b6 * 0x100 + b7,
            )
        }
    }

    /// Reads an offset field: 8 bytes in a BigTIFF, 4 bytes widened in a
    /// Classic TIFF.
    pub fn read_offset(&mut self, btf: bool, le: bool) -> (r: Result<u64, TiffError>)
        ensures
            final(self).data@ == old(self).data@,
            old(self).pos + offset_width(btf) <= old(self).len() ==> r == Ok::<u64, TiffError>(
                offset_at(old(self).data@, old(self).pos as int, btf, le),
            ) && final(self).pos == old(self).pos + offset_width(btf),
            old(self).pos + offset_width(btf) > old(self).len() ==> r == Err::<u64, TiffError>(
                TiffError::UnexpectedEndOfBuffer,
            ) && final(self).pos == old(self).pos,
    {
        if btf {
            match self.read_u64(le) {
                Ok(v) => Ok(v),
                Err(e) => Err(e),
            }
        } else {
            match self.read_u32(le) {
                Ok(v) => Ok(v as u64),
                Err(e) => Err(e),
            }
        }
    }
}

} // verus!
