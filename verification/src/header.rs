//! The 8-byte (Classic) or 16-byte (BigTIFF) file preamble.
//!
//! The header names the byte order of everything that follows, the format
//! variant, and the offset of the first image file directory.

use vstd::prelude::*;

use crate::bytes::{u16_at, u32_at, u64_at, ByteCursor};
use crate::error::TiffError;

verus! {

/// The decoded preamble of a TIFF byte image.
#[derive(Clone, Copy, Debug, PartialEq, Eq, Structural)]
pub struct Header {
    /// The raw byte-order magic: 0x4949 for little-endian, 0x4d4d for
    /// big-endian.
    pub byte_order: u16,
    /// The raw version word: 42 for Classic, 43 for BigTIFF.
    pub version: u16,
    /// The absolute offset of the first directory, widened to 64 bits in a
    /// Classic file.
    pub first_ifd: u64,
}

/// True if the header selects the 64-bit-offset BigTIFF layout.
pub open spec fn spec_is_big(h: Header) -> bool {
    h.version == 43
}

/// True if the header selects little-endian byte order.
pub open spec fn spec_is_le(h: Header) -> bool {
    h.byte_order == 0x4949
}

/// The byte order a header's magic selects, read before the magic is known
/// to be valid: the first two bytes, as a little-endian word, equal 0x4949.
pub open spec fn detected_le(data: Seq<u8>) -> bool {
    u16_at(data, 0, true) == 0x4949
}

/// How many bytes of the source a header occupies: 16 for BigTIFF, 8 for
/// Classic.
pub open spec fn header_size(h: Header) -> int {
    if spec_is_big(h) {
        16
    } else {
        8
    }
}

/// What parsing the preamble of `data` yields.
///
/// The byte-order magic is read first (as a little-endian word, which the
/// two legal magics spell identically in either order), then the version in
/// the detected order.  Version 42 reads a 32-bit first-directory offset;
/// version 43 demands an offset-size field of 8 and a reserved field of 0,
/// then reads a 64-bit offset.  Every short read fails with
/// `UnexpectedEndOfBuffer`; every field check fails with its own error.
pub open spec fn spec_parse_header(data: Seq<u8>) -> Result<Header, TiffError> {
    if data.len() < 2 {
        Err(TiffError::UnexpectedEndOfBuffer)
    } else {
        let byte_order = u16_at(data, 0, true);
        if byte_order != 0x4949 && byte_order != 0x4d4d {
            Err(TiffError::UnexpectedHeaderByteOrder)
        } else {
            let le = byte_order == 0x4949;
            if data.len() < 4 {
                Err(TiffError::UnexpectedEndOfBuffer)
            } else {
                let version = u16_at(data, 2, le);
                if version == 42 {
                    if data.len() < 8 {
                        Err(TiffError::UnexpectedEndOfBuffer)
                    } else {
                        Ok(
                            Header {
                                byte_order,
                                version,
                                first_ifd: u32_at(data, 4, le) as u64,
                            },
                        )
                    }
                } else if version == 43 {
                    if data.len() < 6 {
                        Err(TiffError::UnexpectedEndOfBuffer)
                    } else if u16_at(data, 4, le) != 8 {
                        Err(TiffError::UnexpectedHeaderOffsetSize)
                    } else if data.len() < 8 {
                        Err(TiffError::UnexpectedEndOfBuffer)
                    } else if u16_at(data, 6, le) != 0 {
                        Err(TiffError::UnexpectedHeaderReserved)
                    } else if data.len() < 16 {
                        Err(TiffError::UnexpectedEndOfBuffer)
                    } else {
                        Ok(Header { byte_order, version, first_ifd: u64_at(data, 8, le) })
                    }
                } else {
                    Err(TiffError::UnexpectedHeaderVersion)
                }
            }
        }
    }
}

impl Header {
    /// Decodes the preamble from a cursor standing at the start of the
    /// source.
    pub fn from_buffer(buffer: &mut ByteCursor) -> (r: Result<Header, TiffError>)
        requires
            old(buffer).pos == 0,
        ensures
            final(buffer).data@ == old(buffer).data@,
            match r {
                Ok(h) => spec_parse_header(old(buffer).data@) == Ok::<Header, TiffError>(h)
                    && final(buffer).pos == header_size(h),
                Err(e) => spec_parse_header(old(buffer).data@) == Err::<Header, TiffError>(e),
            },
    {
        let byte_order = match buffer.read_u16(true) {
            Ok(v) => v,
            Err(e) => {
                return Err(e);
            },
        };
        let le = match byte_order {
            0x4949 => true,
            0x4d4d => false,
            _ => {
                return Err(TiffError::UnexpectedHeaderByteOrder);
            },
        };
        let version = match buffer.read_u16(le) {
            Ok(v) => v,
            Err(e) => {
                return Err(e);
            },
        };
        let first_ifd: u64;
        if version == 42 {
            first_ifd = match buffer.read_u32(le) {
                Ok(v) => v as u64,
                Err(e) => {
                    return Err(e);
                },
            };
        } else if version == 43 {
            let offset_size = match buffer.read_u16(le) {
                Ok(v) => v,
                Err(e) => {
                    return Err(e);
                },
            };
            if offset_size != 8 {
                return Err(TiffError::UnexpectedHeaderOffsetSize);
            }
            let reserved = match buffer.read_u16(le) {
                Ok(v) => v,
                Err(e) => {
                    return Err(e);
                },
            };
            if reserved != 0 {
                return Err(TiffError::UnexpectedHeaderReserved);
            }
            first_ifd = match buffer.read_u64(le) {
                Ok(v) => v,
                Err(e) => {
                    return Err(e);
                },
            };
        } else {
            return Err(TiffError::UnexpectedHeaderVersion);
        }
        Ok(Header { byte_order, version, first_ifd })
    }

    /// True if this header selects the BigTIFF layout.
    pub fn is_btf(&self) -> (r: bool)
        ensures
            r == spec_is_big(*self),
    {
        self.version == 43
    }

    /// True if this header selects little-endian byte order.
    pub fn is_le(&self) -> (r: bool)
        ensures
            r == spec_is_le(*self),
    {
        self.byte_order == 0x4949
    }
}

/// Every valid Classic header is not the big format, and its
/// first-directory offset is the 32-bit field widened to 64 bits.
pub proof fn lemma_classic_header_widens(data: Seq<u8>, h: Header)
    requires
        spec_parse_header(data) == Ok::<Header, TiffError>(h),
        h.version == 42,
    ensures
        !spec_is_big(h),
        h.first_ifd == u32_at(data, 4, spec_is_le(h)) as u64,
        h.first_ifd <= u32::MAX,
{
}

/// A BigTIFF preamble whose offset-size field is not 8 fails with exactly
/// `UnexpectedHeaderOffsetSize`.
pub proof fn lemma_big_header_bad_offset_size(data: Seq<u8>)
    requires
        data.len() >= 6,
        detected_le(data) || u16_at(data, 0, true) == 0x4d4d,
        u16_at(data, 2, detected_le(data)) == 43,
        u16_at(data, 4, detected_le(data)) != 8,
    ensures
        spec_parse_header(data) == Err::<Header, TiffError>(TiffError::UnexpectedHeaderOffsetSize),
{
}

/// A BigTIFF preamble whose offset-size field is 8 but whose reserved field
/// is not 0 fails with exactly `UnexpectedHeaderReserved`.
pub proof fn lemma_big_header_bad_reserved(data: Seq<u8>)
    requires
        data.len() >= 8,
        detected_le(data) || u16_at(data, 0, true) == 0x4d4d,
        u16_at(data, 2, detected_le(data)) == 43,
        u16_at(data, 4, detected_le(data)) == 8,
        u16_at(data, 6, detected_le(data)) != 0,
    ensures
        spec_parse_header(data) == Err::<Header, TiffError>(TiffError::UnexpectedHeaderReserved),
{
}

} // verus!
