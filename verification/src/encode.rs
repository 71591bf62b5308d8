//! Serialization of directories, and the proof that decoding inverts it.
//!
//! The encoders here are specification-level: they say which bytes a
//! directory writes.  The round-trip lemmas show that decoding a buffer
//! holding those bytes reproduces the directory — the same ordered tag
//! list and the same next-directory offset — whichever tags sit inline and
//! whichever go through offsets.

use vstd::prelude::*;

use crate::bytes::{offset_at, offset_width, u16_at, u32_at, u64_at};
use crate::error::TiffError;
use crate::ifd::{lemma_decode_tags_step, lemma_decode_tags_zero, spec_decode_ifd, spec_decode_tag, spec_decode_tags, tag_record_size, IfdView, TagView};
use crate::tagid::{tag_id_num, tag_id_of};
use crate::value::{elem_count, kind_code, kind_width, spec_decode_value, spec_elements, SRational, TagDataView, URational};

verus! {

/// The two bytes of a 16-bit integer in the given byte order.
pub open spec fn enc_u16(v: u16, le: bool) -> Seq<u8> {
    if le {
        seq![(v & 0xff) as u8, ((v >> 8) & 0xff) as u8]
    } else {
        seq![((v >> 8) & 0xff) as u8, (v & 0xff) as u8]
    }
}

/// The four bytes of a 32-bit integer in the given byte order.
pub open spec fn enc_u32(v: u32, le: bool) -> Seq<u8> {
    if le {
        seq![
            (v & 0xff) as u8,
            ((v >> 8) & 0xff) as u8,
            ((v >> 16) & 0xff) as u8,
            ((v >> 24) & 0xff) as u8,
        ]
    } else {
        seq![
            ((v >> 24) & 0xff) as u8,
            ((v >> 16) & 0xff) as u8,
            ((v >> 8) & 0xff) as u8,
            (v & 0xff) as u8,
        ]
    }
}

/// The eight bytes of a 64-bit integer in the given byte order.
pub open spec fn enc_u64(v: u64, le: bool) -> Seq<u8> {
    if le {
        seq![
            (v & 0xff) as u8,
            ((v >> 8) & 0xff) as u8,
            ((v >> 16) & 0xff) as u8,
            ((v >> 24) & 0xff) as u8,
            ((v >> 32) & 0xff) as u8,
            ((v >> 40) & 0xff) as u8,
            ((v >> 48) & 0xff) as u8,
            ((v >> 56) & 0xff) as u8,
        ]
    } else {
        seq![
            ((v >> 56) & 0xff) as u8,
            ((v >> 48) & 0xff) as u8,
            ((v >> 40) & 0xff) as u8,
            ((v >> 32) & 0xff) as u8,
            ((v >> 24) & 0xff) as u8,
            ((v >> 16) & 0xff) as u8,
            ((v >> 8) & 0xff) as u8,
            (v & 0xff) as u8,
        ]
    }
}

/// An offset field: eight bytes in a BigTIFF, four in a Classic TIFF.
pub open spec fn enc_offset(v: u64, btf: bool, le: bool) -> Seq<u8>
    recommends
        btf || v <= u32::MAX,
{
    if btf {
        enc_u64(v, le)
    } else {
        enc_u32(v as u32, le)
    }
}

/// Reading two encoded bytes out of a buffer yields the integer back.
pub proof fn lemma_u16_at_enc(buf: Seq<u8>, pos: int, v: u16, le: bool)
    requires
        0 <= pos,
        pos + 2 <= buf.len(),
        forall|j: int| 0 <= j < 2 ==> buf[pos + j] == enc_u16(v, le)[j],
    ensures
        u16_at(buf, pos, le) == v,
{
    assert((v & 0xff) + ((v >> 8) & 0xff) * 0x100 == v) by (bit_vector);
    assert(v & 0xff < 256 && (v >> 8) & 0xff < 256) by (bit_vector);
    assert(buf[pos + 0] == enc_u16(v, le)[0]);
    assert(buf[pos + 1] == enc_u16(v, le)[1]);
}

/// Reading four encoded bytes out of a buffer yields the integer back.
pub proof fn lemma_u32_at_enc(buf: Seq<u8>, pos: int, v: u32, le: bool)
    requires
        0 <= pos,
        pos + 4 <= buf.len(),
        forall|j: int| 0 <= j < 4 ==> buf[pos + j] == enc_u32(v, le)[j],
    ensures
        u32_at(buf, pos, le) == v,
{
    assert((v & 0xff) + ((v >> 8) & 0xff) * 0x100 + ((v >> 16) & 0xff) * 0x1_0000 + ((v >> 24)
        & 0xff) * 0x100_0000 == v) by (bit_vector);
    assert(v & 0xff < 256 && (v >> 8) & 0xff < 256 && (v >> 16) & 0xff < 256 && (v >> 24) & 0xff
        < 256) by (bit_vector);
    assert(buf[pos + 0] == enc_u32(v, le)[0]);
    assert(buf[pos + 1] == enc_u32(v, le)[1]);
    assert(buf[pos + 2] == enc_u32(v, le)[2]);
    assert(buf[pos + 3] == enc_u32(v, le)[3]);
}

/// Reading eight encoded bytes out of a buffer yields the integer back.
pub proof fn lemma_u64_at_enc(buf: Seq<u8>, pos: int, v: u64, le: bool)
    requires
        0 <= pos,
        pos + 8 <= buf.len(),
        forall|j: int| 0 <= j < 8 ==> buf[pos + j] == enc_u64(v, le)[j],
    ensures
        u64_at(buf, pos, le) == v,
{
    assert((v & 0xff) + ((v >> 8) & 0xff) * 0x100 + ((v >> 16) & 0xff) * 0x1_0000 + ((v >> 24)
        & 0xff) * 0x100_0000 + ((v >> 32) & 0xff) * 0x1_0000_0000 + ((v >> 40) & 0xff)
        * 0x100_0000_0000 + ((v >> 48) & 0xff) * 0x1_0000_0000_0000 + ((v >> 56) & 0xff)
        * 0x100_0000_0000_0000 == v) by (bit_vector);
    assert(v & 0xff < 256 && (v >> 8) & 0xff < 256 && (v >> 16) & 0xff < 256 && (v >> 24) & 0xff
        < 256 && (v >> 32) & 0xff < 256 && (v >> 40) & 0xff < 256 && (v >> 48) & 0xff < 256 && (v
        >> 56) & 0xff < 256) by (bit_vector);
    assert(buf[pos + 0] == enc_u64(v, le)[0]);
    assert(buf[pos + 1] == enc_u64(v, le)[1]);
    assert(buf[pos + 2] == enc_u64(v, le)[2]);
    assert(buf[pos + 3] == enc_u64(v, le)[3]);
    assert(buf[pos + 4] == enc_u64(v, le)[4]);
    assert(buf[pos + 5] == enc_u64(v, le)[5]);
    assert(buf[pos + 6] == enc_u64(v, le)[6]);
    assert(buf[pos + 7] == enc_u64(v, le)[7]);
}

/// Reading an encoded offset field out of a buffer yields the offset back.
pub proof fn lemma_offset_at_enc(buf: Seq<u8>, pos: int, v: u64, btf: bool, le: bool)
    requires
        0 <= pos,
        pos + offset_width(btf) <= buf.len(),
        btf || v <= u32::MAX,
        forall|j: int| 0 <= j < offset_width(btf) ==> buf[pos + j] == enc_offset(v, btf, le)[j],
    ensures
        offset_at(buf, pos, btf, le) == v,
{
    if btf {
        assert forall|j: int| 0 <= j < 8 implies #[trigger] buf[pos + j] == enc_u64(v, le)[j] by {
            assert(buf[pos + j] == enc_offset(v, btf, le)[j]);
        }
        lemma_u64_at_enc(buf, pos, v, le);
    } else {
        assert forall|j: int| 0 <= j < 4 implies #[trigger] buf[pos + j] == enc_u32(v as u32, le)[j] by {
            assert(buf[pos + j] == enc_offset(v, btf, le)[j]);
        }
        lemma_u32_at_enc(buf, pos, v as u32, le);
    }
}

/// The bytes of a sequence of chunks, in order.
pub open spec fn concat_bytes(chunks: Seq<Seq<u8>>) -> Seq<u8>
    decreases chunks.len(),
{
    if chunks.len() == 0 {
        Seq::empty()
    } else {
        chunks[0] + concat_bytes(chunks.drop_first())
    }
}

/// How many bytes precede chunk `i` in the concatenation.
pub open spec fn presum(chunks: Seq<Seq<u8>>, i: int) -> int
    decreases i,
{
    if i <= 0 {
        0
    } else {
        presum(chunks, i - 1) + chunks[i - 1].len()
    }
}

/// The length of a concatenation is the sum over all chunks.
pub proof fn lemma_concat_bytes_len(chunks: Seq<Seq<u8>>)
    ensures
        concat_bytes(chunks).len() == presum(chunks, chunks.len() as int),
    decreases chunks.len(),
{
    if chunks.len() > 0 {
        lemma_concat_bytes_len(chunks.drop_first());
        lemma_presum_drop_first(chunks, chunks.len() as int);
    }
}

/// The prefix sums of a dropped-head sequence differ from the original's
/// by the head's length.
proof fn lemma_presum_drop_first(chunks: Seq<Seq<u8>>, i: int)
    requires
        1 <= i <= chunks.len(),
    ensures
        presum(chunks, i) == chunks[0].len() + presum(chunks.drop_first(), i - 1),
    decreases i,
{
    if i > 1 {
        lemma_presum_drop_first(chunks, i - 1);
        assert(chunks.drop_first()[i - 2] == chunks[i - 1]);
        assert(presum(chunks.drop_first(), i - 1) == presum(chunks.drop_first(), i - 2)
            + chunks.drop_first()[i - 2].len());
    } else {
        assert(presum(chunks, 0) == 0);
        assert(presum(chunks.drop_first(), 0) == 0);
    }
}

/// Prefix sums grow monotonically.
pub proof fn lemma_presum_bounds(chunks: Seq<Seq<u8>>, i: int, j: int)
    requires
        0 <= i <= j <= chunks.len(),
    ensures
        presum(chunks, i) <= presum(chunks, j),
        0 <= presum(chunks, i),
    decreases j,
{
    if j > 0 {
        if i <= j - 1 {
            lemma_presum_bounds(chunks, i, j - 1);
        } else {
            lemma_presum_bounds(chunks, i - 1, j - 1);
        }
    }
}

/// Byte `k` of chunk `i` sits at position `presum(i) + k` of the
/// concatenation.
pub proof fn lemma_concat_bytes_index(chunks: Seq<Seq<u8>>, i: int, k: int)
    requires
        0 <= i < chunks.len(),
        0 <= k < chunks[i].len(),
    ensures
        presum(chunks, i) + k < concat_bytes(chunks).len(),
        concat_bytes(chunks)[presum(chunks, i) + k] == chunks[i][k],
    decreases i,
{
    lemma_concat_bytes_len(chunks);
    lemma_presum_bounds(chunks, i + 1, chunks.len() as int);
    if i == 0 {
        assert(presum(chunks, 0) == 0);
        assert(concat_bytes(chunks)[k] == chunks[0][k]);
    } else {
        lemma_concat_bytes_index(chunks.drop_first(), i - 1, k);
        lemma_presum_drop_first(chunks, i);
        assert(chunks.drop_first()[i - 1] == chunks[i]);
        lemma_presum_bounds(chunks.drop_first(), i - 1, (i - 1) as int);
    }
}

/// In a sequence of same-width chunks, the prefix sum is a product.
pub proof fn lemma_presum_uniform(chunks: Seq<Seq<u8>>, w: int, i: int)
    requires
        0 <= i <= chunks.len(),
        forall|j: int| 0 <= j < chunks.len() ==> chunks[j].len() == w,
    ensures
        presum(chunks, i) == i * w,
    decreases i,
{
    if i > 0 {
        lemma_presum_uniform(chunks, w, i - 1);
        assert(presum(chunks, i) == presum(chunks, i - 1) + chunks[i - 1].len());
        assert(chunks[i - 1].len() == w);
        assert(i * w == (i - 1) * w + w) by (nonlinear_arith);
    } else {
        assert(presum(chunks, 0) == 0);
    }
}

/// The element byte width of a value, by its shape.
pub open spec fn data_width(d: TagDataView) -> int {
    match d {
        TagDataView::Byte(_) => 1,
        TagDataView::Ascii(_) => 1,
        TagDataView::Short(_) => 2,
        TagDataView::Long(_) => 4,
        TagDataView::Rational(_) => 8,
        TagDataView::SByte(_) => 1,
        TagDataView::Undefined(_) => 1,
        TagDataView::SShort(_) => 2,
        TagDataView::SLong(_) => 4,
        TagDataView::SRational(_) => 8,
        TagDataView::Float(_) => 4,
        TagDataView::Double(_) => 8,
        TagDataView::IFD(_) => 4,
        TagDataView::Long8(_) => 8,
        TagDataView::SLong8(_) => 8,
        TagDataView::IFD8(_) => 8,
    }
}

/// The width of a shape agrees with the width table of its kind code.
pub proof fn lemma_data_width_matches(d: TagDataView)
    ensures
        kind_width(kind_code(d)) == Some(data_width(d)),
{
}

/// The per-element byte chunks of a value, in the given byte order.
pub open spec fn chunks_of(d: TagDataView, le: bool) -> Seq<Seq<u8>> {
    match d {
        TagDataView::Byte(s) => s.map_values(|v: u8| seq![v]),
        TagDataView::Ascii(s) => s.map_values(|v: u8| seq![v]),
        TagDataView::Short(s) => s.map_values(|v: u16| enc_u16(v, le)),
        TagDataView::Long(s) => s.map_values(|v: u32| enc_u32(v, le)),
        TagDataView::Rational(s) => s.map_values(
            |r: URational| enc_u32(r.num, le) + enc_u32(r.den, le),
        ),
        TagDataView::SByte(s) => s.map_values(|v: i8| seq![v as u8]),
        TagDataView::Undefined(s) => s.map_values(|v: u8| seq![v]),
        TagDataView::SShort(s) => s.map_values(|v: i16| enc_u16(v as u16, le)),
        TagDataView::SLong(s) => s.map_values(|v: i32| enc_u32(v as u32, le)),
        TagDataView::SRational(s) => s.map_values(
            |r: SRational| enc_u32(r.num as u32, le) + enc_u32(r.den as u32, le),
        ),
        TagDataView::Float(s) => s.map_values(|v: u32| enc_u32(v, le)),
        TagDataView::Double(s) => s.map_values(|v: u64| enc_u64(v, le)),
        TagDataView::IFD(s) => s.map_values(|v: u32| enc_u32(v, le)),
        TagDataView::Long8(s) => s.map_values(|v: u64| enc_u64(v, le)),
        TagDataView::SLong8(s) => s.map_values(|v: i64| enc_u64(v as u64, le)),
        TagDataView::IFD8(s) => s.map_values(|v: u64| enc_u64(v, le)),
    }
}

/// Every chunk of a value has the value's element width, and there is one
/// chunk per element.
pub proof fn lemma_chunks_uniform(d: TagDataView, le: bool)
    ensures
        chunks_of(d, le).len() == elem_count(d),
        forall|i: int|
            0 <= i < elem_count(d) ==> (#[trigger] chunks_of(d, le)[i]).len() == data_width(d),
{
}

/// The bytes a value's elements are written as: its chunks, in order.
pub open spec fn enc_elems(d: TagDataView, le: bool) -> Seq<u8> {
    concat_bytes(chunks_of(d, le))
}

/// The encoded elements occupy exactly count times width bytes.
pub proof fn lemma_enc_elems_len(d: TagDataView, le: bool)
    ensures
        enc_elems(d, le).len() == elem_count(d) * data_width(d),
{
    lemma_chunks_uniform(d, le);
    lemma_concat_bytes_len(chunks_of(d, le));
    lemma_presum_uniform(chunks_of(d, le), data_width(d), elem_count(d) as int);
}

/// Decoding elements out of a buffer that holds their encoding yields the
/// value back, for every kind.
#[verifier::rlimit(100)]
#[verifier::spinoff_prover]
pub proof fn lemma_elements_of_encoded(buf: Seq<u8>, epos: int, d: TagDataView, le: bool)
    requires
        0 <= epos,
        epos + elem_count(d) * data_width(d) <= buf.len(),
        forall|j: int|
            0 <= j < elem_count(d) * data_width(d) ==> buf[epos + j] == enc_elems(d, le)[j],
    ensures
        spec_elements(buf, kind_code(d), epos, elem_count(d), le) == d,
{
    let n = elem_count(d) as int;
    let w = data_width(d);
    let chunks = chunks_of(d, le);
    lemma_chunks_uniform(d, le);
    lemma_concat_bytes_len(chunks);
    lemma_presum_uniform(chunks, w, n);
    assert forall|i: int, k: int| 0 <= i < n && 0 <= k < w implies #[trigger] chunks[i][k] == buf[epos
        + i * w + k] by {
        lemma_presum_uniform(chunks, w, i);
        lemma_concat_bytes_index(chunks, i, k);
        assert(i * w + k < n * w) by (nonlinear_arith)
            requires
                0 <= i < n,
                0 <= k < w,
        ;
        assert(i * w + k >= 0) by (nonlinear_arith)
            requires
                0 <= i,
                0 <= k,
                1 <= w,
        ;
        assert(buf[epos + (i * w + k)] == enc_elems(d, le)[i * w + k]);
    }
    match d {
        TagDataView::Byte(s) => {
            assert forall|i: int| 0 <= i < n implies buf[epos + i] == s[i] by {
                assert(buf[epos + i * 1 + 0] == chunks[i][0]);
            }
            assert(Seq::new(n as nat, |i: int| buf[epos + i]) =~= s);
        },
        TagDataView::Ascii(s) => {
            assert forall|i: int| 0 <= i < n implies buf[epos + i] == s[i] by {
                assert(buf[epos + i * 1 + 0] == chunks[i][0]);
            }
            assert(Seq::new(n as nat, |i: int| buf[epos + i]) =~= s);
        },
        TagDataView::Short(s) => {
            assert forall|i: int| 0 <= i < n implies u16_at(buf, epos + 2 * i, le) == s[i] by {
                assert forall|k: int| 0 <= k < 2 implies #[trigger] buf[epos + 2 * i + k]
                    == enc_u16(s[i], le)[k] by {
                    assert(buf[epos + i * 2 + k] == chunks[i][k]);
                }
                lemma_u16_at_enc(buf, epos + 2 * i, s[i], le);
            }
            assert(Seq::new(n as nat, |i: int| u16_at(buf, epos + 2 * i, le)) =~= s);
        },
        TagDataView::Long(s) => {
            assert forall|i: int| 0 <= i < n implies u32_at(buf, epos + 4 * i, le) == s[i] by {
                assert forall|k: int| 0 <= k < 4 implies #[trigger] buf[epos + 4 * i + k]
                    == enc_u32(s[i], le)[k] by {
                    assert(buf[epos + i * 4 + k] == chunks[i][k]);
                }
                lemma_u32_at_enc(buf, epos + 4 * i, s[i], le);
            }
            assert(Seq::new(n as nat, |i: int| u32_at(buf, epos + 4 * i, le)) =~= s);
        },
        TagDataView::Rational(s) => {
            assert forall|i: int| 0 <= i < n implies u32_at(buf, epos + 8 * i, le) == s[i].num
                && u32_at(buf, epos + 8 * i + 4, le) == s[i].den by {
                assert forall|k: int| 0 <= k < 4 implies #[trigger] buf[epos + 8 * i + k]
                    == enc_u32(s[i].num, le)[k] by {
                    assert(buf[epos + i * 8 + k] == chunks[i][k]);
                }
                assert forall|k: int| 0 <= k < 4 implies #[trigger] buf[epos + 8 * i + 4 + k]
                    == enc_u32(s[i].den, le)[k] by {
                    assert(buf[epos + i * 8 + (4 + k)] == chunks[i][4 + k]);
                }
                lemma_u32_at_enc(buf, epos + 8 * i, s[i].num, le);
                lemma_u32_at_enc(buf, epos + 8 * i + 4, s[i].den, le);
            }
            assert(Seq::new(
                n as nat,
                |i: int|
                    URational {
                        num: u32_at(buf, epos + 8 * i, le),
                        den: u32_at(buf, epos + 8 * i + 4, le),
                    },
            ) =~= s);
        },
        TagDataView::SByte(s) => {
            assert forall|i: int| 0 <= i < n implies buf[epos + i] as i8 == s[i] by {
                assert(buf[epos + i * 1 + 0] == chunks[i][0]);
                let x = s[i];
                assert((x as u8) as i8 == x) by (bit_vector);
            }
            assert(Seq::new(n as nat, |i: int| buf[epos + i] as i8) =~= s);
        },
        TagDataView::Undefined(s) => {
            assert forall|i: int| 0 <= i < n implies buf[epos + i] == s[i] by {
                assert(buf[epos + i * 1 + 0] == chunks[i][0]);
            }
            assert(Seq::new(n as nat, |i: int| buf[epos + i]) =~= s);
        },
        TagDataView::SShort(s) => {
            assert forall|i: int| 0 <= i < n implies u16_at(buf, epos + 2 * i, le) as i16
                == s[i] by {
                assert forall|k: int| 0 <= k < 2 implies #[trigger] buf[epos + 2 * i + k]
                    == enc_u16(s[i] as u16, le)[k] by {
                    assert(buf[epos + i * 2 + k] == chunks[i][k]);
                }
                lemma_u16_at_enc(buf, epos + 2 * i, s[i] as u16, le);
                let x = s[i];
                assert((x as u16) as i16 == x) by (bit_vector);
            }
            assert(Seq::new(n as nat, |i: int| u16_at(buf, epos + 2 * i, le) as i16) =~= s);
        },
        TagDataView::SLong(s) => {
            assert forall|i: int| 0 <= i < n implies u32_at(buf, epos + 4 * i, le) as i32
                == s[i] by {
                assert forall|k: int| 0 <= k < 4 implies #[trigger] buf[epos + 4 * i + k]
                    == enc_u32(s[i] as u32, le)[k] by {
                    assert(buf[epos + i * 4 + k] == chunks[i][k]);
                }
                lemma_u32_at_enc(buf, epos + 4 * i, s[i] as u32, le);
                let x = s[i];
                assert((x as u32) as i32 == x) by (bit_vector);
            }
            assert(Seq::new(n as nat, |i: int| u32_at(buf, epos + 4 * i, le) as i32) =~= s);
        },
        TagDataView::SRational(s) => {
            assert forall|i: int| 0 <= i < n implies u32_at(buf, epos + 8 * i, le) as i32
                == s[i].num && u32_at(buf, epos + 8 * i + 4, le) as i32 == s[i].den by {
                assert forall|k: int| 0 <= k < 4 implies #[trigger] buf[epos + 8 * i + k]
                    == enc_u32(s[i].num as u32, le)[k] by {
                    assert(buf[epos + i * 8 + k] == chunks[i][k]);
                }
                assert forall|k: int| 0 <= k < 4 implies #[trigger] buf[epos + 8 * i + 4 + k]
                    == enc_u32(s[i].den as u32, le)[k] by {
                    assert(buf[epos + i * 8 + (4 + k)] == chunks[i][4 + k]);
                }
                lemma_u32_at_enc(buf, epos + 8 * i, s[i].num as u32, le);
                lemma_u32_at_enc(buf, epos + 8 * i + 4, s[i].den as u32, le);
                let xn = s[i].num;
                let xd = s[i].den;
                assert((xn as u32) as i32 == xn) by (bit_vector);
                assert((xd as u32) as i32 == xd) by (bit_vector);
            }
            assert(Seq::new(
                n as nat,
                |i: int|
                    SRational {
                        num: u32_at(buf, epos + 8 * i, le) as i32,
                        den: u32_at(buf, epos + 8 * i + 4, le) as i32,
                    },
            ) =~= s);
        },
        TagDataView::Float(s) => {
            assert forall|i: int| 0 <= i < n implies u32_at(buf, epos + 4 * i, le) == s[i] by {
                assert forall|k: int| 0 <= k < 4 implies #[trigger] buf[epos + 4 * i + k]
                    == enc_u32(s[i], le)[k] by {
                    assert(buf[epos + i * 4 + k] == chunks[i][k]);
                }
                lemma_u32_at_enc(buf, epos + 4 * i, s[i], le);
            }
            assert(Seq::new(n as nat, |i: int| u32_at(buf, epos + 4 * i, le)) =~= s);
        },
        TagDataView::Double(s) => {
            assert forall|i: int| 0 <= i < n implies u64_at(buf, epos + 8 * i, le) == s[i] by {
                assert forall|k: int| 0 <= k < 8 implies #[trigger] buf[epos + 8 * i + k]
                    == enc_u64(s[i], le)[k] by {
                    assert(buf[epos + i * 8 + k] == chunks[i][k]);
                }
                lemma_u64_at_enc(buf, epos + 8 * i, s[i], le);
            }
            assert(Seq::new(n as nat, |i: int| u64_at(buf, epos + 8 * i, le)) =~= s);
        },
        TagDataView::IFD(s) => {
            assert forall|i: int| 0 <= i < n implies u32_at(buf, epos + 4 * i, le) == s[i] by {
                assert forall|k: int| 0 <= k < 4 implies #[trigger] buf[epos + 4 * i + k]
                    == enc_u32(s[i], le)[k] by {
                    assert(buf[epos + i * 4 + k] == chunks[i][k]);
                }
                lemma_u32_at_enc(buf, epos + 4 * i, s[i], le);
            }
            assert(Seq::new(n as nat, |i: int| u32_at(buf, epos + 4 * i, le)) =~= s);
        },
        TagDataView::Long8(s) => {
            assert forall|i: int| 0 <= i < n implies u64_at(buf, epos + 8 * i, le) == s[i] by {
                assert forall|k: int| 0 <= k < 8 implies #[trigger] buf[epos + 8 * i + k]
                    == enc_u64(s[i], le)[k] by {
                    assert(buf[epos + i * 8 + k] == chunks[i][k]);
                }
                lemma_u64_at_enc(buf, epos + 8 * i, s[i], le);
            }
            assert(Seq::new(n as nat, |i: int| u64_at(buf, epos + 8 * i, le)) =~= s);
        },
        TagDataView::SLong8(s) => {
            assert forall|i: int| 0 <= i < n implies u64_at(buf, epos + 8 * i, le) as i64
                == s[i] by {
                assert forall|k: int| 0 <= k < 8 implies #[trigger] buf[epos + 8 * i + k]
                    == enc_u64(s[i] as u64, le)[k] by {
                    assert(buf[epos + i * 8 + k] == chunks[i][k]);
                }
                lemma_u64_at_enc(buf, epos + 8 * i, s[i] as u64, le);
                let x = s[i];
                assert((x as u64) as i64 == x) by (bit_vector);
            }
            assert(Seq::new(n as nat, |i: int| u64_at(buf, epos + 8 * i, le) as i64) =~= s);
        },
        TagDataView::IFD8(s) => {
            assert forall|i: int| 0 <= i < n implies u64_at(buf, epos + 8 * i, le) == s[i] by {
                assert forall|k: int| 0 <= k < 8 implies #[trigger] buf[epos + 8 * i + k]
                    == enc_u64(s[i], le)[k] by {
                    assert(buf[epos + i * 8 + k] == chunks[i][k]);
                }
                lemma_u64_at_enc(buf, epos + 8 * i, s[i], le);
            }
            assert(Seq::new(n as nat, |i: int| u64_at(buf, epos + 8 * i, le)) =~= s);
        },
    }
}

/// The total byte size of a value's elements.
pub open spec fn value_size(d: TagDataView) -> int {
    elem_count(d) * data_width(d)
}

/// Whether a value is stored inline: its total byte size fits the offset
/// field.
pub open spec fn is_inline(d: TagDataView, btf: bool) -> bool {
    value_size(d) <= offset_width(btf)
}

/// Zero padding.
pub open spec fn pad_zeros(n: int) -> Seq<u8> {
    Seq::new(n as nat, |i: int| 0u8)
}

/// A tag that can be written faithfully: its identity decodes back to
/// itself (a private identifier must not collide with a named table
/// entry), and its element count fits the count field.
pub open spec fn wf_tag(t: TagView, btf: bool) -> bool {
    &&& tag_id_of(tag_id_num(t.id)) == t.id
    &&& elem_count(t.data) <= if btf {
        u64::MAX as int
    } else {
        u32::MAX as int
    }
}

/// The bytes of a value record: kind, count, then either the inline
/// elements padded with zeros or the offset `off` of the elements.
pub open spec fn enc_value_record(d: TagDataView, btf: bool, le: bool, off: u64) -> Seq<u8> {
    enc_u16(kind_code(d), le) + enc_offset(elem_count(d) as u64, btf, le) + if is_inline(d, btf) {
        enc_elems(d, le) + pad_zeros(offset_width(btf) - value_size(d))
    } else {
        enc_offset(off, btf, le)
    }
}

/// The bytes of one tag record: the identity, then the value record.
pub open spec fn enc_tag_record(t: TagView, btf: bool, le: bool, off: u64) -> Seq<u8> {
    enc_u16(tag_id_num(t.id), le) + enc_value_record(t.data, btf, le, off)
}

/// Every encoded tag record has the fixed record size of its variant.
pub proof fn lemma_enc_tag_record_len(t: TagView, btf: bool, le: bool, off: u64)
    ensures
        enc_tag_record(t, btf, le, off).len() == tag_record_size(btf),
{
    lemma_enc_elems_len(t.data, le);
}

/// Decoding a value record out of a buffer that holds its encoding (and,
/// for an out-of-line value, the elements at `off`) yields the value
/// back, ending just after the value-or-offset field.
#[verifier::rlimit(100)]
#[verifier::spinoff_prover]
pub proof fn lemma_decode_value_of_encoded(
    buf: Seq<u8>,
    pos: int,
    d: TagDataView,
    btf: bool,
    le: bool,
    off: u64,
)
    requires
        buf.len() <= u64::MAX,
        0 <= pos,
        pos + 2 + 2 * offset_width(btf) <= buf.len(),
        elem_count(d) <= if btf {
            u64::MAX as int
        } else {
            u32::MAX as int
        },
        forall|j: int|
            0 <= j < 2 + 2 * offset_width(btf) ==> buf[pos + j] == enc_value_record(
                d,
                btf,
                le,
                off,
            )[j],
        !is_inline(d, btf) ==> {
            &&& btf || off <= u32::MAX
            &&& off + value_size(d) <= buf.len()
            &&& forall|j: int| 0 <= j < value_size(d) ==> buf[off + j] == enc_elems(d, le)[j]
        },
    ensures
        spec_decode_value(buf, pos, btf, le) == Ok::<(TagDataView, int), TiffError>(
            (d, pos + 2 + 2 * offset_width(btf)),
        ),
{
    let ow = offset_width(btf);
    let record = enc_value_record(d, btf, le, off);
    let count = elem_count(d) as u64;
    let w = data_width(d);
    let tail = if is_inline(d, btf) {
        enc_elems(d, le) + pad_zeros(ow - value_size(d))
    } else {
        enc_offset(off, btf, le)
    };
    lemma_enc_elems_len(d, le);
    lemma_data_width_matches(d);
    assert(record =~= enc_u16(kind_code(d), le) + enc_offset(count, btf, le) + tail);
    // The kind field.
    assert forall|j: int| 0 <= j < 2 implies #[trigger] buf[pos + j] == enc_u16(
        kind_code(d),
        le,
    )[j] by {
        assert(buf[pos + j] == record[j]);
    }
    lemma_u16_at_enc(buf, pos, kind_code(d), le);
    // The count field.
    assert forall|j: int| 0 <= j < ow implies #[trigger] buf[pos + 2 + j] == enc_offset(
        count,
        btf,
        le,
    )[j] by {
        assert(buf[pos + (2 + j)] == record[2 + j]);
    }
    lemma_offset_at_enc(buf, pos + 2, count, btf, le);
    let vpos = pos + 2 + ow;
    assert((count as int) * w == value_size(d));
    if is_inline(d, btf) {
        assert forall|j: int| 0 <= j < value_size(d) implies #[trigger] buf[vpos + j] == enc_elems(
            d,
            le,
        )[j] by {
            assert(buf[pos + (2 + ow + j)] == record[2 + ow + j]);
            assert(record[2 + ow + j] == tail[j]);
            assert(tail[j] == enc_elems(d, le)[j]);
        }
        lemma_elements_of_encoded(buf, vpos, d, le);
    } else {
        assert forall|j: int| 0 <= j < ow implies #[trigger] buf[vpos + j] == enc_offset(
            off,
            btf,
            le,
        )[j] by {
            assert(buf[pos + (2 + ow + j)] == record[2 + ow + j]);
            assert(record[2 + ow + j] == tail[j]);
        }
        lemma_offset_at_enc(buf, vpos, off, btf, le);
        lemma_elements_of_encoded(buf, off as int, d, le);
    }
}

/// Decoding a tag record out of a buffer that holds its encoding yields
/// the tag back, ending at the fixed record size.
pub proof fn lemma_decode_tag_of_encoded(
    buf: Seq<u8>,
    pos: int,
    t: TagView,
    btf: bool,
    le: bool,
    off: u64,
)
    requires
        buf.len() <= u64::MAX,
        0 <= pos,
        pos + tag_record_size(btf) <= buf.len(),
        wf_tag(t, btf),
        forall|j: int|
            0 <= j < tag_record_size(btf) ==> buf[pos + j] == enc_tag_record(t, btf, le, off)[j],
        !is_inline(t.data, btf) ==> {
            &&& btf || off <= u32::MAX
            &&& off + value_size(t.data) <= buf.len()
            &&& forall|j: int|
                0 <= j < value_size(t.data) ==> buf[off + j] == enc_elems(t.data, le)[j]
        },
    ensures
        spec_decode_tag(buf, pos, btf, le) == Ok::<(TagView, int), TiffError>(
            (t, pos + tag_record_size(btf)),
        ),
{
    let ow = offset_width(btf);
    let record = enc_tag_record(t, btf, le, off);
    assert(record =~= enc_u16(tag_id_num(t.id), le) + enc_value_record(t.data, btf, le, off));
    lemma_enc_tag_record_len(t, btf, le, off);
    // The identity field.
    assert forall|j: int| 0 <= j < 2 implies #[trigger] buf[pos + j] == enc_u16(
        tag_id_num(t.id),
        le,
    )[j] by {
        assert(buf[pos + j] == record[j]);
    }
    lemma_u16_at_enc(buf, pos, tag_id_num(t.id), le);
    // The value record.
    assert forall|j: int| 0 <= j < 2 + 2 * ow implies #[trigger] buf[pos + 2 + j]
        == enc_value_record(t.data, btf, le, off)[j] by {
        assert(buf[pos + (2 + j)] == record[2 + j]);
    }
    lemma_decode_value_of_encoded(buf, pos + 2, t.data, btf, le, off);
    assert(spec_decode_tag(buf, pos, btf, le) matches Ok(pair) && pair.0 =~= t && pair.1 == pos
        + tag_record_size(btf));
}

/// The width of the tag-count field: eight bytes in a BigTIFF, two in a
/// Classic TIFF.
pub open spec fn count_width(btf: bool) -> int {
    if btf {
        8
    } else {
        2
    }
}

/// The bytes of the tag-count field.
pub open spec fn enc_count(n: u64, btf: bool, le: bool) -> Seq<u8>
    recommends
        btf || n <= u16::MAX,
{
    if btf {
        enc_u64(n, le)
    } else {
        enc_u16(n as u16, le)
    }
}

/// The out-of-line element bytes of each tag: empty for an inline tag.
pub open spec fn block_chunks(tags: Seq<TagView>, btf: bool, le: bool) -> Seq<Seq<u8>> {
    Seq::new(
        tags.len(),
        |i: int|
            if is_inline(tags[i].data, btf) {
                Seq::empty()
            } else {
                enc_elems(tags[i].data, le)
            },
    )
}

/// The size of the directory record itself: count field, the fixed-size
/// tag records, and the next-directory offset.
pub open spec fn dir_size(n: int, btf: bool) -> int {
    count_width(btf) + n * tag_record_size(btf) + offset_width(btf)
}

/// Where tag `i`'s out-of-line elements go: after the directory record,
/// behind the blocks of the earlier tags.
pub open spec fn block_off(tags: Seq<TagView>, base: int, i: int, btf: bool, le: bool) -> int {
    base + dir_size(tags.len() as int, btf) + presum(block_chunks(tags, btf, le), i)
}

/// The bytes of each tag record, with each out-of-line tag pointing at its
/// block.
pub open spec fn rec_chunks(tags: Seq<TagView>, base: int, btf: bool, le: bool) -> Seq<Seq<u8>> {
    Seq::new(
        tags.len(),
        |i: int| enc_tag_record(tags[i], btf, le, block_off(tags, base, i, btf, le) as u64),
    )
}

/// The bytes a directory writes when placed at `base`: the count field,
/// the tag records, the next-directory offset, and then the out-of-line
/// element blocks in tag order.
pub open spec fn enc_ifd(v: IfdView, base: int, btf: bool, le: bool) -> Seq<u8> {
    enc_count(v.tag_count, btf, le) + concat_bytes(rec_chunks(v.tags, base, btf, le)) + enc_offset(
        v.next_ifd,
        btf,
        le,
    ) + concat_bytes(block_chunks(v.tags, btf, le))
}

/// A directory that can be written faithfully at `base`: its anchor is
/// `base`, its declared count is its tag count and fits the count field,
/// every tag is well-formed, the next offset fits the offset field, and
/// everything it writes stays inside the offset field's range, so that
/// block offsets can be stored.
pub open spec fn wf_ifd(v: IfdView, base: int, btf: bool, le: bool) -> bool {
    &&& v.pos == base
    &&& 0 <= base
    &&& v.tag_count == v.tags.len()
    &&& v.tags.len() <= if btf {
        u64::MAX as int
    } else {
        u16::MAX as int
    }
    &&& (forall|i: int| 0 <= i < v.tags.len() ==> wf_tag(#[trigger] v.tags[i], btf))
    &&& (btf || v.next_ifd <= u32::MAX)
    &&& base + enc_ifd(v, base, btf, le).len() <= if btf {
        u64::MAX as int
    } else {
        u32::MAX as int
    }
}

/// Every tag record chunk has the fixed record size.
proof fn lemma_rec_chunks_uniform(tags: Seq<TagView>, base: int, btf: bool, le: bool)
    ensures
        rec_chunks(tags, base, btf, le).len() == tags.len(),
        forall|i: int|
            0 <= i < tags.len() ==> (#[trigger] rec_chunks(tags, base, btf, le)[i]).len()
                == tag_record_size(btf),
{
    assert forall|i: int| 0 <= i < tags.len() implies (#[trigger] rec_chunks(
        tags,
        base,
        btf,
        le,
    )[i]).len() == tag_record_size(btf) by {
        lemma_enc_tag_record_len(
            tags[i],
            btf,
            le,
            block_off(tags, base, i, btf, le) as u64,
        );
    }
}

/// The overall length of an encoded directory: the directory record plus
/// all its blocks.
pub proof fn lemma_enc_ifd_len(v: IfdView, base: int, btf: bool, le: bool)
    requires
        v.tag_count == v.tags.len(),
    ensures
        enc_ifd(v, base, btf, le).len() == dir_size(v.tags.len() as int, btf) + presum(
            block_chunks(v.tags, btf, le),
            v.tags.len() as int,
        ),
{
    let n = v.tags.len() as int;
    lemma_rec_chunks_uniform(v.tags, base, btf, le);
    lemma_concat_bytes_len(rec_chunks(v.tags, base, btf, le));
    lemma_presum_uniform(rec_chunks(v.tags, base, btf, le), tag_record_size(btf), n);
    lemma_concat_bytes_len(block_chunks(v.tags, btf, le));
}

/// Decoding the records of an encoded directory, from tag `i` on, yields
/// the remaining tags in order.
#[verifier::rlimit(100)]
#[verifier::spinoff_prover]
proof fn lemma_decode_tags_of_encoded(
    buf: Seq<u8>,
    v: IfdView,
    base: int,
    btf: bool,
    le: bool,
    i: int,
)
    requires
        buf.len() <= u64::MAX,
        wf_ifd(v, base, btf, le),
        base + enc_ifd(v, base, btf, le).len() <= buf.len(),
        forall|j: int|
            0 <= j < enc_ifd(v, base, btf, le).len() ==> buf[base + j] == enc_ifd(
                v,
                base,
                btf,
                le,
            )[j],
        0 <= i <= v.tags.len(),
    ensures
        spec_decode_tags(
            buf,
            base + count_width(btf) + i * tag_record_size(btf),
            (v.tags.len() - i) as nat,
            btf,
            le,
        ) == Ok::<(Seq<TagView>, int), TiffError>(
            (
                v.tags.skip(i),
                base + count_width(btf) + v.tags.len() * tag_record_size(btf),
            ),
        ),
    decreases v.tags.len() - i,
{
    let n = v.tags.len() as int;
    let cf = count_width(btf);
    let rec = tag_record_size(btf);
    let ow = offset_width(btf);
    let e = enc_ifd(v, base, btf, le);
    let recs = rec_chunks(v.tags, base, btf, le);
    let blocks = block_chunks(v.tags, btf, le);
    lemma_rec_chunks_uniform(v.tags, base, btf, le);
    lemma_concat_bytes_len(recs);
    lemma_presum_uniform(recs, rec, n);
    lemma_concat_bytes_len(blocks);
    lemma_enc_ifd_len(v, base, btf, le);
    assert(e =~= enc_count(v.tag_count, btf, le) + concat_bytes(recs) + enc_offset(
        v.next_ifd,
        btf,
        le,
    ) + concat_bytes(blocks));
    if i == n {
        lemma_decode_tags_zero(buf, base + cf + n * rec, btf, le);
        assert(v.tags.skip(n) =~= Seq::<TagView>::empty());
    } else {
        let pos_i = base + cf + i * rec;
        let t = v.tags[i];
        let off_i = block_off(v.tags, base, i, btf, le);
        assert(0 <= i * rec && (i + 1) * rec <= n * rec && (i + 1) * rec == i * rec + rec)
            by (nonlinear_arith)
            requires
                0 <= i < n,
                rec == 12 || rec == 20,
        ;
        // The bytes of record i.
        assert forall|j: int| 0 <= j < rec implies #[trigger] buf[pos_i + j] == enc_tag_record(
            t,
            btf,
            le,
            off_i as u64,
        )[j] by {
            lemma_presum_uniform(recs, rec, i);
            lemma_concat_bytes_index(recs, i, j);
            assert(buf[base + (cf + i * rec + j)] == e[cf + i * rec + j]);
            assert(e[cf + i * rec + j] == concat_bytes(recs)[i * rec + j]);
        }
        // The bytes of block i, for an out-of-line value.
        lemma_presum_bounds(blocks, i, n);
        lemma_presum_bounds(blocks, i + 1, n);
        lemma_presum_bounds(blocks, 0, i);
        assert(presum(blocks, i + 1) == presum(blocks, i) + blocks[i].len());
        if !is_inline(t.data, btf) {
            assert(blocks[i] == enc_elems(t.data, le));
            lemma_enc_elems_len(t.data, le);
            assert(off_i + value_size(t.data) <= base + e.len());
            assert forall|j: int| 0 <= j < value_size(t.data) implies #[trigger] buf[off_i + j]
                == enc_elems(t.data, le)[j] by {
                lemma_concat_bytes_index(blocks, i, j);
                assert(buf[base + (cf + n * rec + ow + presum(blocks, i) + j)] == e[cf + n * rec
                    + ow + presum(blocks, i) + j]);
                assert(e[cf + n * rec + ow + presum(blocks, i) + j] == concat_bytes(
                    blocks,
                )[presum(blocks, i) + j]);
            }
        }
        lemma_decode_tag_of_encoded(buf, pos_i, t, btf, le, off_i as u64);
        lemma_decode_tags_step(buf, pos_i, (n - i) as nat, btf, le);
        lemma_decode_tags_of_encoded(buf, v, base, btf, le, i + 1);
        assert(seq![t] + v.tags.skip(i + 1) =~= v.tags.skip(i));
    }
}

/// Round trip: a well-formed directory written at `base` into a buffer
/// decodes back, in full mode, to the very same directory — the same
/// ordered tag list and the same next-directory offset — ending just
/// after its next-offset field.
#[verifier::rlimit(100)]
#[verifier::spinoff_prover]
pub proof fn lemma_ifd_round_trip(buf: Seq<u8>, v: IfdView, base: int, btf: bool, le: bool)
    requires
        buf.len() <= u64::MAX,
        wf_ifd(v, base, btf, le),
        base + enc_ifd(v, base, btf, le).len() <= buf.len(),
        forall|j: int|
            0 <= j < enc_ifd(v, base, btf, le).len() ==> buf[base + j] == enc_ifd(
                v,
                base,
                btf,
                le,
            )[j],
    ensures
        spec_decode_ifd(buf, base, btf, le, false) == Ok::<(IfdView, int), TiffError>(
            (v, base + dir_size(v.tags.len() as int, btf)),
        ),
{
    let n = v.tags.len() as int;
    let cf = count_width(btf);
    let rec = tag_record_size(btf);
    let ow = offset_width(btf);
    let e = enc_ifd(v, base, btf, le);
    let recs = rec_chunks(v.tags, base, btf, le);
    let blocks = block_chunks(v.tags, btf, le);
    lemma_rec_chunks_uniform(v.tags, base, btf, le);
    lemma_concat_bytes_len(recs);
    lemma_presum_uniform(recs, rec, n);
    lemma_concat_bytes_len(blocks);
    lemma_presum_bounds(blocks, 0, n);
    lemma_enc_ifd_len(v, base, btf, le);
    assert(e =~= enc_count(v.tag_count, btf, le) + concat_bytes(recs) + enc_offset(
        v.next_ifd,
        btf,
        le,
    ) + concat_bytes(blocks));
    // The count field.
    if btf {
        assert forall|j: int| 0 <= j < 8 implies #[trigger] buf[base + j] == enc_u64(
            v.tag_count,
            le,
        )[j] by {
            assert(buf[base + j] == e[j]);
        }
        lemma_u64_at_enc(buf, base, v.tag_count, le);
    } else {
        assert forall|j: int| 0 <= j < 2 implies #[trigger] buf[base + j] == enc_u16(
            v.tag_count as u16,
            le,
        )[j] by {
            assert(buf[base + j] == e[j]);
        }
        lemma_u16_at_enc(buf, base, v.tag_count as u16, le);
    }
    // The tag records.
    lemma_decode_tags_of_encoded(buf, v, base, btf, le, 0);
    assert(v.tags.skip(0) =~= v.tags);
    // The next-directory offset.
    let after = base + cf + n * rec;
    assert forall|j: int| 0 <= j < ow implies #[trigger] buf[after + j] == enc_offset(
        v.next_ifd,
        btf,
        le,
    )[j] by {
        assert(buf[base + (cf + n * rec + j)] == e[cf + n * rec + j]);
    }
    lemma_offset_at_enc(buf, after, v.next_ifd, btf, le);
    assert(spec_decode_ifd(buf, base, btf, le, false) matches Ok(pair) && pair.0 =~= v && pair.1
        == base + dir_size(n, btf));
}

} // verus!
