//! The sixteen-kind typed tag value and its decode protocol.
//!
//! A tag record stores a 2-byte kind code, an element count, and either the
//! element bytes inline (when their total size fits in the offset field) or
//! an offset to where they live elsewhere in the file.  Whichever branch is
//! taken, decoding restores the cursor to just after the value field, so
//! directory parsing continues contiguously.
//!
//! Floating-point elements are held as their raw IEEE 754 bit patterns;
//! their numeric meaning is given by the coercion layer.

use vstd::prelude::*;

use crate::bytes::{offset_at, offset_width, u16_at, u32_at, u64_at, ByteCursor};
use crate::error::TiffError;

verus! {

/// An unsigned rational: a numerator and a denominator, 32 bits each.
#[derive(Clone, Copy, Debug, PartialEq, Eq, Structural)]
pub struct URational {
    /// The numerator.
    pub num: u32,
    /// The denominator.
    pub den: u32,
}

/// A signed rational: a numerator and a denominator, 32 bits each.
#[derive(Clone, Copy, Debug, PartialEq, Eq, Structural)]
pub struct SRational {
    /// The numerator.
    pub num: i32,
    /// The denominator.
    pub den: i32,
}

/// A decoded tag value: an ordered sequence of same-kind scalars, one
/// variant per kind code of the format.
///
/// `Float` and `Double` hold IEEE 754 binary32 and binary64 bit patterns.
#[derive(Clone, Debug)]
pub enum TagData {
    /// Kind 1: unsigned 8-bit integers.
    Byte(Vec<u8>),
    /// Kind 2: the bytes of a 7-bit ASCII string.
    Ascii(Vec<u8>),
    /// Kind 3: unsigned 16-bit integers.
    Short(Vec<u16>),
    /// Kind 4: unsigned 32-bit integers.
    Long(Vec<u32>),
    /// Kind 5: unsigned rationals.
    Rational(Vec<URational>),
    /// Kind 6: signed 8-bit integers.
    SByte(Vec<i8>),
    /// Kind 7: uninterpreted bytes.
    Undefined(Vec<u8>),
    /// Kind 8: signed 16-bit integers.
    SShort(Vec<i16>),
    /// Kind 9: signed 32-bit integers.
    SLong(Vec<i32>),
    /// Kind 10: signed rationals.
    SRational(Vec<SRational>),
    /// Kind 11: IEEE 754 binary32 bit patterns.
    Float(Vec<u32>),
    /// Kind 12: IEEE 754 binary64 bit patterns.
    Double(Vec<u64>),
    /// Kind 13: 32-bit directory offsets.
    IFD(Vec<u32>),
    /// Kind 16: unsigned 64-bit integers.
    Long8(Vec<u64>),
    /// Kind 17: signed 64-bit integers.
    SLong8(Vec<i64>),
    /// Kind 18: 64-bit directory offsets.
    IFD8(Vec<u64>),
}

/// The mathematical shape of a [`TagData`]: the same sixteen kinds over
/// sequences instead of vectors.
#[verifier::ext_equal]
pub enum TagDataView {
    /// Kind 1.
    Byte(Seq<u8>),
    /// Kind 2.
    Ascii(Seq<u8>),
    /// Kind 3.
    Short(Seq<u16>),
    /// Kind 4.
    Long(Seq<u32>),
    /// Kind 5.
    Rational(Seq<URational>),
    /// Kind 6.
    SByte(Seq<i8>),
    /// Kind 7.
    Undefined(Seq<u8>),
    /// Kind 8.
    SShort(Seq<i16>),
    /// Kind 9.
    SLong(Seq<i32>),
    /// Kind 10.
    SRational(Seq<SRational>),
    /// Kind 11.
    Float(Seq<u32>),
    /// Kind 12.
    Double(Seq<u64>),
    /// Kind 13.
    IFD(Seq<u32>),
    /// Kind 16.
    Long8(Seq<u64>),
    /// Kind 17.
    SLong8(Seq<i64>),
    /// Kind 18.
    IFD8(Seq<u64>),
}

impl View for TagData {
    type V = TagDataView;

    open spec fn view(&self) -> TagDataView {
        match self {
            TagData::Byte(v) => TagDataView::Byte(v@),
            TagData::Ascii(v) => TagDataView::Ascii(v@),
            TagData::Short(v) => TagDataView::Short(v@),
            TagData::Long(v) => TagDataView::Long(v@),
            TagData::Rational(v) => TagDataView::Rational(v@),
            TagData::SByte(v) => TagDataView::SByte(v@),
            TagData::Undefined(v) => TagDataView::Undefined(v@),
            TagData::SShort(v) => TagDataView::SShort(v@),
            TagData::SLong(v) => TagDataView::SLong(v@),
            TagData::SRational(v) => TagDataView::SRational(v@),
            TagData::Float(v) => TagDataView::Float(v@),
            TagData::Double(v) => TagDataView::Double(v@),
            TagData::IFD(v) => TagDataView::IFD(v@),
            TagData::Long8(v) => TagDataView::Long8(v@),
            TagData::SLong8(v) => TagDataView::SLong8(v@),
            TagData::IFD8(v) => TagDataView::IFD8(v@),
        }
    }
}

/// The kind code each value shape is written with.
pub open spec fn kind_code(d: TagDataView) -> u16 {
    match d {
        TagDataView::Byte(_) => 1,
        TagDataView::Ascii(_) => 2,
        TagDataView::Short(_) => 3,
        TagDataView::Long(_) => 4,
        TagDataView::Rational(_) => 5,
        TagDataView::SByte(_) => 6,
        TagDataView::Undefined(_) => 7,
        TagDataView::SShort(_) => 8,
        TagDataView::SLong(_) => 9,
        TagDataView::SRational(_) => 10,
        TagDataView::Float(_) => 11,
        TagDataView::Double(_) => 12,
        TagDataView::IFD(_) => 13,
        TagDataView::Long8(_) => 16,
        TagDataView::SLong8(_) => 17,
        TagDataView::IFD8(_) => 18,
    }
}

/// How many scalars a value holds.
pub open spec fn elem_count(d: TagDataView) -> nat {
    match d {
        TagDataView::Byte(s) => s.len(),
        TagDataView::Ascii(s) => s.len(),
        TagDataView::Short(s) => s.len(),
        TagDataView::Long(s) => s.len(),
        TagDataView::Rational(s) => s.len(),
        TagDataView::SByte(s) => s.len(),
        TagDataView::Undefined(s) => s.len(),
        TagDataView::SShort(s) => s.len(),
        TagDataView::SLong(s) => s.len(),
        TagDataView::SRational(s) => s.len(),
        TagDataView::Float(s) => s.len(),
        TagDataView::Double(s) => s.len(),
        TagDataView::IFD(s) => s.len(),
        TagDataView::Long8(s) => s.len(),
        TagDataView::SLong8(s) => s.len(),
        TagDataView::IFD8(s) => s.len(),
    }
}

/// The element byte width of each kind code; `None` for an unknown code.
pub open spec fn kind_width(kind: u16) -> Option<int> {
    match kind {
        1 => Some(1),
        2 => Some(1),
        3 => Some(2),
        4 => Some(4),
        5 => Some(8),
        6 => Some(1),
        7 => Some(1),
        8 => Some(2),
        9 => Some(4),
        10 => Some(8),
        11 => Some(4),
        12 => Some(8),
        13 => Some(4),
        16 => Some(8),
        17 => Some(8),
        18 => Some(8),
        _ => None,
    }
}

/// The `count` elements of kind `kind` that begin at byte `pos` of `data`,
/// read in the given byte order.
pub open spec fn spec_elements(data: Seq<u8>, kind: u16, pos: int, count: nat, le: bool) -> TagDataView
    recommends
        kind_width(kind) is Some,
{
    match kind {
        1 => TagDataView::Byte(Seq::new(count, |i: int| data[pos + i])),
        2 => TagDataView::Ascii(Seq::new(count, |i: int| data[pos + i])),
        3 => TagDataView::Short(Seq::new(count, |i: int| u16_at(data, pos + 2 * i, le))),
        4 => TagDataView::Long(Seq::new(count, |i: int| u32_at(data, pos + 4 * i, le))),
        5 => TagDataView::Rational(
            Seq::new(
                count,
                |i: int|
                    URational {
                        num: u32_at(data, pos + 8 * i, le),
                        den: u32_at(data, pos + 8 * i + 4, le),
                    },
            ),
        ),
        6 => TagDataView::SByte(Seq::new(count, |i: int| data[pos + i] as i8)),
        7 => TagDataView::Undefined(Seq::new(count, |i: int| data[pos + i])),
        8 => TagDataView::SShort(Seq::new(count, |i: int| u16_at(data, pos + 2 * i, le) as i16)),
        9 => TagDataView::SLong(Seq::new(count, |i: int| u32_at(data, pos + 4 * i, le) as i32)),
        10 => TagDataView::SRational(
            Seq::new(
                count,
                |i: int|
                    SRational {
                        num: u32_at(data, pos + 8 * i, le) as i32,
                        den: u32_at(data, pos + 8 * i + 4, le) as i32,
                    },
            ),
        ),
        11 => TagDataView::Float(Seq::new(count, |i: int| u32_at(data, pos + 4 * i, le))),
        12 => TagDataView::Double(Seq::new(count, |i: int| u64_at(data, pos + 8 * i, le))),
        13 => TagDataView::IFD(Seq::new(count, |i: int| u32_at(data, pos + 4 * i, le))),
        16 => TagDataView::Long8(Seq::new(count, |i: int| u64_at(data, pos + 8 * i, le))),
        17 => TagDataView::SLong8(Seq::new(count, |i: int| u64_at(data, pos + 8 * i, le) as i64)),
        18 => TagDataView::IFD8(Seq::new(count, |i: int| u64_at(data, pos + 8 * i, le))),
        _ => arbitrary(),
    }
}

/// What decoding a tag value whose kind field begins at byte `pos` yields:
/// the value and the position just after the value-or-offset field.
///
/// The kind and count are read first; an unknown kind code fails.  The
/// elements are read inline when their total byte size fits in the offset
/// field, through one level of indirection otherwise; either way the
/// decoder finishes at `pos` plus the fixed record remainder, so a short
/// read inside the excursion is the only way the two branches differ.
pub open spec fn spec_decode_value(data: Seq<u8>, pos: int, btf: bool, le: bool) -> Result<
    (TagDataView, int),
    TiffError,
> {
    let len = data.len() as int;
    let ow = offset_width(btf);
    if pos + 2 > len {
        Err(TiffError::UnexpectedEndOfBuffer)
    } else {
        let kind = u16_at(data, pos, le);
        if pos + 2 + ow > len {
            Err(TiffError::UnexpectedEndOfBuffer)
        } else {
            let count = offset_at(data, pos + 2, btf, le);
            match kind_width(kind) {
                None => Err(TiffError::UnknownTagKind),
                Some(w) => {
                    let vpos = pos + 2 + ow;
                    let total = count * w;
                    if total > ow {
                        // Indirect: the value field holds an offset to the
                        // elements.
                        if vpos + ow > len {
                            Err(TiffError::UnexpectedEndOfBuffer)
                        } else {
                            let epos = offset_at(data, vpos, btf, le) as int;
                            if count > 0 && epos + total > len {
                                Err(TiffError::UnexpectedEndOfBuffer)
                            } else if vpos + ow > u64::MAX {
                                // A restore position past the 64-bit offset
                                // space cannot be sought to.
                                Err(TiffError::UnknownBufferError)
                            } else {
                                Ok((spec_elements(data, kind, epos, count as nat, le), vpos + ow))
                            }
                        }
                    } else {
                        // Inline: the elements sit in the value field
                        // itself.
                        if count > 0 && vpos + total > len {
                            Err(TiffError::UnexpectedEndOfBuffer)
                        } else if vpos + ow > u64::MAX {
                            // As above: the restore position must exist.
                            Err(TiffError::UnknownBufferError)
                        } else {
                            Ok((spec_elements(data, kind, vpos, count as nat, le), vpos + ow))
                        }
                    }
                },
            }
        }
    }
}

/// The element byte width of a kind code, as executable lookup.
fn kind_width_exec(kind: u16) -> (r: Option<u64>)
    ensures
        match kind_width(kind) {
            Some(w) => r == Some(w as u64),
            None => r is None,
        },
{
    match kind {
        1 => Some(1),
        2 => Some(1),
        3 => Some(2),
        4 => Some(4),
        5 => Some(8),
        6 => Some(1),
        7 => Some(1),
        8 => Some(2),
        9 => Some(4),
        10 => Some(8),
        11 => Some(4),
        12 => Some(8),
        13 => Some(4),
        16 => Some(8),
        17 => Some(8),
        18 => Some(8),
        _ => None,
    }
}

impl TagData {
    /// The kind code this value is written with.
    pub fn kind(&self) -> (r: u16)
        ensures
            r == kind_code(self@),
    {
        match self {
            TagData::Byte(_) => 1,
            TagData::Ascii(_) => 2,
            TagData::Short(_) => 3,
            TagData::Long(_) => 4,
            TagData::Rational(_) => 5,
            TagData::SByte(_) => 6,
            TagData::Undefined(_) => 7,
            TagData::SShort(_) => 8,
            TagData::SLong(_) => 9,
            TagData::SRational(_) => 10,
            TagData::Float(_) => 11,
            TagData::Double(_) => 12,
            TagData::IFD(_) => 13,
            TagData::Long8(_) => 16,
            TagData::SLong8(_) => 17,
            TagData::IFD8(_) => 18,
        }
    }

    /// Decodes one tag value from the kind field onward, leaving the cursor
    /// just after the value-or-offset field.
    #[verifier::rlimit(60)]
    pub fn from_buffer(buffer: &mut ByteCursor, btf: bool, le: bool) -> (r: Result<
        TagData,
        TiffError,
    >)
        ensures
            final(buffer).data@ == old(buffer).data@,
            match r {
                Ok(d) => spec_decode_value(old(buffer).data@, old(buffer).pos as int, btf, le)
                    matches Ok(pair) && pair.0 == d@ && pair.1 == final(buffer).pos,
                Err(e) => spec_decode_value(old(buffer).data@, old(buffer).pos as int, btf, le)
                    == Err::<(TagDataView, int), TiffError>(e),
            },
    {
        let kind = match buffer.read_u16(le) {
            Ok(v) => v,
            Err(e) => {
                return Err(e);
            },
        };
        let count = match buffer.read_offset(btf, le) {
            Ok(v) => v,
            Err(e) => {
                return Err(e);
            },
        };
        let w = match kind_width_exec(kind) {
            Some(w) => w,
            None => {
                return Err(TiffError::UnknownTagKind);
            },
        };
        let vpos = buffer.position();
        let ow: u64 = if btf {
            8
        } else {
            4
        };
        // `count * w > ow` without overflow: w divides 8, so the products
        // compare as the quotients do.
        let indirect = count > ow / w;
        proof {
            assert((count * w > ow) == (count > ow / w)) by (nonlinear_arith)
                requires
                    w == 1 || w == 2 || w == 4 || w == 8,
                    ow == 4 || ow == 8,
                    count >= 0,
            ;
        }
        if indirect {
            let off = match buffer.read_offset(btf, le) {
                Ok(v) => v,
                Err(e) => {
                    return Err(e);
                },
            };
            buffer.seek(off);
        }
        let d = match read_elements(buffer, kind, count, le) {
            Ok(d) => d,
            Err(e) => {
                return Err(e);
            },
        };
        // Restore the cursor to just after the value-or-offset field.
        if vpos > u64::MAX - ow {
            return Err(TiffError::UnknownBufferError);
        }
        buffer.seek(vpos + ow);
        Ok(d)
    }
}

/// Reads the `count` elements of kind `kind` standing at the cursor.
fn read_elements(cur: &mut ByteCursor, kind: u16, count: u64, le: bool) -> (r: Result<
    TagData,
    TiffError,
>)
    requires
        kind_width(kind) is Some,
    ensures
        final(cur).data@ == old(cur).data@,
        ({
            let w = kind_width(kind).unwrap();
            match r {
                Ok(d) => (count == 0 || old(cur).pos + count * w <= old(cur).len()) && d@
                    == spec_elements(old(cur).data@, kind, old(cur).pos as int, count as nat, le)
                    && final(cur).pos == old(cur).pos + count * w,
                Err(e) => e == TiffError::UnexpectedEndOfBuffer && count > 0 && old(cur).pos + count
                    * w > old(cur).len(),
            }
        }),
{
    match kind {
        1 => Ok(TagData::Byte(read_elems_u8(cur, count)?)),
        2 => Ok(TagData::Ascii(read_elems_u8(cur, count)?)),
        3 => Ok(TagData::Short(read_elems_u16(cur, count, le)?)),
        4 => Ok(TagData::Long(read_elems_u32(cur, count, le)?)),
        5 => Ok(TagData::Rational(read_elems_urational(cur, count, le)?)),
        6 => Ok(TagData::SByte(read_elems_i8(cur, count)?)),
        7 => Ok(TagData::Undefined(read_elems_u8(cur, count)?)),
        8 => Ok(TagData::SShort(read_elems_i16(cur, count, le)?)),
        9 => Ok(TagData::SLong(read_elems_i32(cur, count, le)?)),
        10 => Ok(TagData::SRational(read_elems_srational(cur, count, le)?)),
        11 => Ok(TagData::Float(read_elems_u32(cur, count, le)?)),
        12 => Ok(TagData::Double(read_elems_u64(cur, count, le)?)),
        13 => Ok(TagData::IFD(read_elems_u32(cur, count, le)?)),
        16 => Ok(TagData::Long8(read_elems_u64(cur, count, le)?)),
        17 => Ok(TagData::SLong8(read_elems_i64(cur, count, le)?)),
        18 => Ok(TagData::IFD8(read_elems_u64(cur, count, le)?)),
        _ => {
            proof {
                assert(false);
            }
            Err(TiffError::UnknownTagKind)
        },
    }
}

/// Reads `count` bytes.
fn read_elems_u8(cur: &mut ByteCursor, count: u64) -> (r: Result<Vec<u8>, TiffError>)
    ensures
        final(cur).data@ == old(cur).data@,
        count == 0 || old(cur).pos + count * 1 <= old(cur).len() ==> (r matches Ok(v) && v@
            == Seq::new(count as nat, |i: int| old(cur).data@[old(cur).pos + i]) && final(cur).pos
            == old(cur).pos + count),
        count > 0 && old(cur).pos + count * 1 > old(cur).len() ==> r == Err::<Vec<u8>, TiffError>(
            TiffError::UnexpectedEndOfBuffer,
        ),
{
    let ghost data0 = cur.data@;
    let ghost start = cur.pos;
    let mut v: Vec<u8> = Vec::new();
    let mut i: u64 = 0;
    while i < count
        invariant
            i <= count,
            cur.data@ == data0,
            cur.pos == start + i,
            i > 0 ==> start + i <= data0.len(),
            v@ == Seq::new(i as nat, |j: int| data0[start + j]),
        decreases count - i,
    {
        match cur.read_u8() {
            Ok(x) => {
                v.push(x);
                proof {
                    assert(v@ =~= Seq::new((i + 1) as nat, |j: int| data0[start + j]));
                }
            },
            Err(e) => {
                return Err(e);
            },
        }
        i = i + 1;
    }
    Ok(v)
}

/// Reads `count` bytes as signed 8-bit integers.
fn read_elems_i8(cur: &mut ByteCursor, count: u64) -> (r: Result<Vec<i8>, TiffError>)
    ensures
        final(cur).data@ == old(cur).data@,
        count == 0 || old(cur).pos + count * 1 <= old(cur).len() ==> (r matches Ok(v) && v@
            == Seq::new(count as nat, |i: int| old(cur).data@[old(cur).pos + i] as i8) && (final(cur).pos == old(cur).pos + count)),
        count > 0 && old(cur).pos + count * 1 > old(cur).len() ==> r == Err::<Vec<i8>, TiffError>(
            TiffError::UnexpectedEndOfBuffer,
        ),
{
    let ghost data0 = cur.data@;
    let ghost start = cur.pos;
    let mut v: Vec<i8> = Vec::new();
    let mut i: u64 = 0;
    while i < count
        invariant
            i <= count,
            cur.data@ == data0,
            cur.pos == start + i,
            i > 0 ==> start + i <= data0.len(),
            v@ == Seq::new(i as nat, |j: int| data0[start + j] as i8),
        decreases count - i,
    {
        match cur.read_u8() {
            Ok(x) => {
                v.push(x as i8);
                proof {
                    assert(v@ =~= Seq::new((i + 1) as nat, |j: int| data0[start + j] as i8));
                }
            },
            Err(e) => {
                return Err(e);
            },
        }
        i = i + 1;
    }
    Ok(v)
}

/// Reads `count` 16-bit integers in the given byte order.
fn read_elems_u16(cur: &mut ByteCursor, count: u64, le: bool) -> (r: Result<Vec<u16>, TiffError>)
    ensures
        final(cur).data@ == old(cur).data@,
        count == 0 || old(cur).pos + count * 2 <= old(cur).len() ==> (r matches Ok(v) && v@
            == Seq::new(count as nat, |i: int| u16_at(old(cur).data@, old(cur).pos + 2 * i, le))
            && final(cur).pos == old(cur).pos + count * 2),
        count > 0 && old(cur).pos + count * 2 > old(cur).len() ==> r == Err::<Vec<u16>, TiffError>(
            TiffError::UnexpectedEndOfBuffer,
        ),
{
    let ghost data0 = cur.data@;
    let ghost start = cur.pos;
    let mut v: Vec<u16> = Vec::new();
    let mut i: u64 = 0;
    while i < count
        invariant
            i <= count,
            cur.data@ == data0,
            cur.pos == start + 2 * i,
            i > 0 ==> start + 2 * i <= data0.len(),
            v@ == Seq::new(i as nat, |j: int| u16_at(data0, start + 2 * j, le)),
        decreases count - i,
    {
        match cur.read_u16(le) {
            Ok(x) => {
                v.push(x);
                proof {
                    assert(v@ =~= Seq::new((i + 1) as nat, |j: int| u16_at(data0, start + 2 * j, le)));
                }
            },
            Err(e) => {
                return Err(e);
            },
        }
        i = i + 1;
    }
    Ok(v)
}

/// Reads `count` 16-bit integers as signed values.
fn read_elems_i16(cur: &mut ByteCursor, count: u64, le: bool) -> (r: Result<Vec<i16>, TiffError>)
    ensures
        final(cur).data@ == old(cur).data@,
        count == 0 || old(cur).pos + count * 2 <= old(cur).len() ==> (r matches Ok(v) && v@
            == Seq::new(
            count as nat,
            |i: int| u16_at(old(cur).data@, old(cur).pos + 2 * i, le) as i16,
        ) && (final(cur).pos == old(cur).pos + count * 2)),
        count > 0 && old(cur).pos + count * 2 > old(cur).len() ==> r == Err::<Vec<i16>, TiffError>(
            TiffError::UnexpectedEndOfBuffer,
        ),
{
    let ghost data0 = cur.data@;
    let ghost start = cur.pos;
    let mut v: Vec<i16> = Vec::new();
    let mut i: u64 = 0;
    while i < count
        invariant
            i <= count,
            cur.data@ == data0,
            cur.pos == start + 2 * i,
            i > 0 ==> start + 2 * i <= data0.len(),
            v@ == Seq::new(i as nat, |j: int| u16_at(data0, start + 2 * j, le) as i16),
        decreases count - i,
    {
        match cur.read_u16(le) {
            Ok(x) => {
                v.push(x as i16);
                proof {
                    assert(v@ =~= Seq::new(
                        (i + 1) as nat,
                        |j: int| u16_at(data0, start + 2 * j, le) as i16,
                    ));
                }
            },
            Err(e) => {
                return Err(e);
            },
        }
        i = i + 1;
    }
    Ok(v)
}

/// Reads `count` 32-bit integers in the given byte order.
fn read_elems_u32(cur: &mut ByteCursor, count: u64, le: bool) -> (r: Result<Vec<u32>, TiffError>)
    ensures
        final(cur).data@ == old(cur).data@,
        count == 0 || old(cur).pos + count * 4 <= old(cur).len() ==> (r matches Ok(v) && v@
            == Seq::new(count as nat, |i: int| u32_at(old(cur).data@, old(cur).pos + 4 * i, le))
            && final(cur).pos == old(cur).pos + count * 4),
        count > 0 && old(cur).pos + count * 4 > old(cur).len() ==> r == Err::<Vec<u32>, TiffError>(
            TiffError::UnexpectedEndOfBuffer,
        ),
{
    let ghost data0 = cur.data@;
    let ghost start = cur.pos;
    let mut v: Vec<u32> = Vec::new();
    let mut i: u64 = 0;
    while i < count
        invariant
            i <= count,
            cur.data@ == data0,
            cur.pos == start + 4 * i,
            i > 0 ==> start + 4 * i <= data0.len(),
            v@ == Seq::new(i as nat, |j: int| u32_at(data0, start + 4 * j, le)),
        decreases count - i,
    {
        match cur.read_u32(le) {
            Ok(x) => {
                v.push(x);
                proof {
                    assert(v@ =~= Seq::new((i + 1) as nat, |j: int| u32_at(data0, start + 4 * j, le)));
                }
            },
            Err(e) => {
                return Err(e);
            },
        }
        i = i + 1;
    }
    Ok(v)
}

/// Reads `count` 32-bit integers as signed values.
fn read_elems_i32(cur: &mut ByteCursor, count: u64, le: bool) -> (r: Result<Vec<i32>, TiffError>)
    ensures
        final(cur).data@ == old(cur).data@,
        count == 0 || old(cur).pos + count * 4 <= old(cur).len() ==> (r matches Ok(v) && v@
            == Seq::new(
            count as nat,
            |i: int| u32_at(old(cur).data@, old(cur).pos + 4 * i, le) as i32,
        ) && final(cur).pos == old(cur).pos + count * 4),
        count > 0 && old(cur).pos + count * 4 > old(cur).len() ==> r == Err::<Vec<i32>, TiffError>(
            TiffError::UnexpectedEndOfBuffer,
        ),
{
    let ghost data0 = cur.data@;
    let ghost start = cur.pos;
    let mut v: Vec<i32> = Vec::new();
    let mut i: u64 = 0;
    while i < count
        invariant
            i <= count,
            cur.data@ == data0,
            cur.pos == start + 4 * i,
            i > 0 ==> start + 4 * i <= data0.len(),
            v@ == Seq::new(i as nat, |j: int| u32_at(data0, start + 4 * j, le) as i32),
        decreases count - i,
    {
        match cur.read_u32(le) {
            Ok(x) => {
                v.push(x as i32);
                proof {
                    assert(v@ =~= Seq::new(
                        (i + 1) as nat,
                        |j: int| u32_at(data0, start + 4 * j, le) as i32,
                    ));
                }
            },
            Err(e) => {
                return Err(e);
            },
        }
        i = i + 1;
    }
    Ok(v)
}

/// Reads `count` 64-bit integers in the given byte order.
fn read_elems_u64(cur: &mut ByteCursor, count: u64, le: bool) -> (r: Result<Vec<u64>, TiffError>)
    ensures
        final(cur).data@ == old(cur).data@,
        count == 0 || old(cur).pos + count * 8 <= old(cur).len() ==> (r matches Ok(v) && v@
            == Seq::new(count as nat, |i: int| u64_at(old(cur).data@, old(cur).pos + 8 * i, le))
            && final(cur).pos == old(cur).pos + count * 8),
        count > 0 && old(cur).pos + count * 8 > old(cur).len() ==> r == Err::<Vec<u64>, TiffError>(
            TiffError::UnexpectedEndOfBuffer,
        ),
{
    let ghost data0 = cur.data@;
    let ghost start = cur.pos;
    let mut v: Vec<u64> = Vec::new();
    let mut i: u64 = 0;
    while i < count
        invariant
            i <= count,
            cur.data@ == data0,
            cur.pos == start + 8 * i,
            i > 0 ==> start + 8 * i <= data0.len(),
            v@ == Seq::new(i as nat, |j: int| u64_at(data0, start + 8 * j, le)),
        decreases count - i,
    {
        match cur.read_u64(le) {
            Ok(x) => {
                v.push(x);
                proof {
                    assert(v@ =~= Seq::new((i + 1) as nat, |j: int| u64_at(data0, start + 8 * j, le)));
                }
            },
            Err(e) => {
                return Err(e);
            },
        }
        i = i + 1;
    }
    Ok(v)
}

/// Reads `count` 64-bit integers as signed values.
fn read_elems_i64(cur: &mut ByteCursor, count: u64, le: bool) -> (r: Result<Vec<i64>, TiffError>)
    ensures
        final(cur).data@ == old(cur).data@,
        count == 0 || old(cur).pos + count * 8 <= old(cur).len() ==> (r matches Ok(v) && v@
            == Seq::new(
            count as nat,
            |i: int| u64_at(old(cur).data@, old(cur).pos + 8 * i, le) as i64,
        ) && final(cur).pos == old(cur).pos + count * 8),
        count > 0 && old(cur).pos + count * 8 > old(cur).len() ==> r == Err::<Vec<i64>, TiffError>(
            TiffError::UnexpectedEndOfBuffer,
        ),
{
    let ghost data0 = cur.data@;
    let ghost start = cur.pos;
    let mut v: Vec<i64> = Vec::new();
    let mut i: u64 = 0;
    while i < count
        invariant
            i <= count,
            cur.data@ == data0,
            cur.pos == start + 8 * i,
            i > 0 ==> start + 8 * i <= data0.len(),
            v@ == Seq::new(i as nat, |j: int| u64_at(data0, start + 8 * j, le) as i64),
        decreases count - i,
    {
        match cur.read_u64(le) {
            Ok(x) => {
                v.push(x as i64);
                proof {
                    assert(v@ =~= Seq::new(
                        (i + 1) as nat,
                        |j: int| u64_at(data0, start + 8 * j, le) as i64,
                    ));
                }
            },
            Err(e) => {
                return Err(e);
            },
        }
        i = i + 1;
    }
    Ok(v)
}

/// Reads `count` unsigned rationals: numerator then denominator, 4 bytes
/// each.
fn read_elems_urational(cur: &mut ByteCursor, count: u64, le: bool) -> (r: Result<
    Vec<URational>,
    TiffError,
>)
    ensures
        final(cur).data@ == old(cur).data@,
        count == 0 || old(cur).pos + count * 8 <= old(cur).len() ==> (r matches Ok(v) && v@
            == Seq::new(
            count as nat,
            |i: int|
                URational {
                    num: u32_at(old(cur).data@, old(cur).pos + 8 * i, le),
                    den: u32_at(old(cur).data@, old(cur).pos + 8 * i + 4, le),
                },
        ) && final(cur).pos == old(cur).pos + count * 8),
        count > 0 && old(cur).pos + count * 8 > old(cur).len() ==> r == Err::<
            Vec<URational>,
            TiffError,
        >(TiffError::UnexpectedEndOfBuffer),
{
    let ghost data0 = cur.data@;
    let ghost start = cur.pos;
    let mut v: Vec<URational> = Vec::new();
    let mut i: u64 = 0;
    while i < count
        invariant
            i <= count,
            cur.data@ == data0,
            cur.pos == start + 8 * i,
            i > 0 ==> start + 8 * i <= data0.len(),
            v@ == Seq::new(
                i as nat,
                |j: int|
                    URational {
                        num: u32_at(data0, start + 8 * j, le),
                        den: u32_at(data0, start + 8 * j + 4, le),
                    },
            ),
        decreases count - i,
    {
        let num = match cur.read_u32(le) {
            Ok(x) => x,
            Err(e) => {
                return Err(e);
            },
        };
        let den = match cur.read_u32(le) {
            Ok(x) => x,
            Err(e) => {
                return Err(e);
            },
        };
        v.push(URational { num, den });
        proof {
            assert(v@ =~= Seq::new(
                (i + 1) as nat,
                |j: int|
                    URational {
                        num: u32_at(data0, start + 8 * j, le),
                        den: u32_at(data0, start + 8 * j + 4, le),
                    },
            ));
        }
        i = i + 1;
    }
    Ok(v)
}

/// Reads `count` signed rationals: numerator then denominator, 4 bytes
/// each.
fn read_elems_srational(cur: &mut ByteCursor, count: u64, le: bool) -> (r: Result<
    Vec<SRational>,
    TiffError,
>)
    ensures
        final(cur).data@ == old(cur).data@,
        count == 0 || old(cur).pos + count * 8 <= old(cur).len() ==> (r matches Ok(v) && v@
            == Seq::new(
            count as nat,
            |i: int|
                SRational {
                    num: u32_at(old(cur).data@, old(cur).pos + 8 * i, le) as i32,
                    den: u32_at(old(cur).data@, old(cur).pos + 8 * i + 4, le) as i32,
                },
        ) && final(cur).pos == old(cur).pos + count * 8),
        count > 0 && old(cur).pos + count * 8 > old(cur).len() ==> r == Err::<
            Vec<SRational>,
            TiffError,
        >(TiffError::UnexpectedEndOfBuffer),
{
    let ghost data0 = cur.data@;
    let ghost start = cur.pos;
    let mut v: Vec<SRational> = Vec::new();
    let mut i: u64 = 0;
    while i < count
        invariant
            i <= count,
            cur.data@ == data0,
            cur.pos == start + 8 * i,
            i > 0 ==> start + 8 * i <= data0.len(),
            v@ == Seq::new(
                i as nat,
                |j: int|
                    SRational {
                        num: u32_at(data0, start + 8 * j, le) as i32,
                        den: u32_at(data0, start + 8 * j + 4, le) as i32,
                    },
            ),
        decreases count - i,
    {
        let num = match cur.read_u32(le) {
            Ok(x) => x,
            Err(e) => {
                return Err(e);
            },
        };
        let den = match cur.read_u32(le) {
            Ok(x) => x,
            Err(e) => {
                return Err(e);
            },
        };
        v.push(SRational { num: num as i32, den: den as i32 });
        proof {
            assert(v@ =~= Seq::new(
                (i + 1) as nat,
                |j: int|
                    SRational {
                        num: u32_at(data0, start + 8 * j, le) as i32,
                        den: u32_at(data0, start + 8 * j + 4, le) as i32,
                    },
            ));
        }
        i = i + 1;
    }
    Ok(v)
}

} // verus!
