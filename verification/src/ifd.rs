//! Image file directories: ordered tag lists with a pointer to the next
//! directory.
//!
//! A directory on disk is a tag count (16-bit Classic, 64-bit Big), that
//! many fixed-size tag records, and a trailing next-directory offset.  A
//! directory may be decoded in skip mode, which advances over the records
//! without materializing the tags; the byte accounting of the two modes is
//! identical.

use vstd::prelude::*;

use crate::bytes::{offset_at, offset_width, u16_at, u64_at, ByteCursor};
use crate::coerce::{spec_as_u64_array, spec_as_u64_single};
use crate::enums::{spec_scheme_from, CompressionScheme};
use crate::error::TiffError;
use crate::tagid::{tag_id_of, Baseline, TagID};
use crate::value::{spec_decode_value, TagData, TagDataView};

verus! {

/// A stored tag: an identity and a typed value.  Lookup is by identity
/// only.
#[derive(Clone, Debug)]
pub struct Tag {
    /// The identity the tag is filed under.
    pub id: TagID,
    /// The typed value it holds.
    pub data: TagData,
}

/// The mathematical shape of a [`Tag`].
#[verifier::ext_equal]
pub struct TagView {
    /// The identity.
    pub id: TagID,
    /// The value.
    pub data: TagDataView,
}

impl View for Tag {
    type V = TagView;

    open spec fn view(&self) -> TagView {
        TagView { id: self.id, data: self.data@ }
    }
}

/// The fixed on-disk size of one tag record: identity, kind, count and
/// value-or-offset field.
pub open spec fn tag_record_size(btf: bool) -> int {
    if btf {
        20
    } else {
        12
    }
}

/// What decoding one tag record beginning at byte `pos` yields: the tag and
/// the position just after the record.
pub open spec fn spec_decode_tag(data: Seq<u8>, pos: int, btf: bool, le: bool) -> Result<
    (TagView, int),
    TiffError,
> {
    if pos + 2 > data.len() {
        Err(TiffError::UnexpectedEndOfBuffer)
    } else {
        let id = tag_id_of(u16_at(data, pos, le));
        match spec_decode_value(data, pos + 2, btf, le) {
            Ok(pair) => Ok((TagView { id, data: pair.0 }, pair.1)),
            Err(e) => Err(e),
        }
    }
}

/// Whether a tag value is stored inline or through an offset, a decoded
/// record ends at the same place: its start plus the fixed record size.
pub proof fn lemma_tag_record_advance(data: Seq<u8>, pos: int, btf: bool, le: bool)
    requires
        spec_decode_tag(data, pos, btf, le) is Ok,
    ensures
        (spec_decode_tag(data, pos, btf, le)->Ok_0).1 == pos + tag_record_size(btf),
{
}

/// What decoding `n` consecutive tag records beginning at byte `pos`
/// yields: the tags in on-disk order and the position just after the last
/// record.
#[verifier::opaque]
pub open spec fn spec_decode_tags(data: Seq<u8>, pos: int, n: nat, btf: bool, le: bool) -> Result<
    (Seq<TagView>, int),
    TiffError,
>
    decreases n,
{
    if n == 0 {
        Ok((Seq::empty(), pos))
    } else {
        match spec_decode_tag(data, pos, btf, le) {
            Err(e) => Err(e),
            Ok((t, p1)) => match spec_decode_tags(data, p1, (n - 1) as nat, btf, le) {
                Err(e) => Err(e),
                Ok((rest, end)) => Ok((seq![t] + rest, end)),
            },
        }
    }
}

/// Zero records decode to the empty tag list without moving.
pub proof fn lemma_decode_tags_zero(data: Seq<u8>, pos: int, btf: bool, le: bool)
    ensures
        spec_decode_tags(data, pos, 0, btf, le) == Ok::<(Seq<TagView>, int), TiffError>(
            (Seq::<TagView>::empty(), pos),
        ),
{
    reveal(spec_decode_tags);
}

/// One step of record decoding: the first record, then the remaining
/// records from where it ended.
pub proof fn lemma_decode_tags_step(data: Seq<u8>, pos: int, n: nat, btf: bool, le: bool)
    requires
        n > 0,
    ensures
        spec_decode_tags(data, pos, n, btf, le) == match spec_decode_tag(data, pos, btf, le) {
            Err(e) => Err::<(Seq<TagView>, int), TiffError>(e),
            Ok(first) => match spec_decode_tags(data, first.1, (n - 1) as nat, btf, le) {
                Err(e) => Err::<(Seq<TagView>, int), TiffError>(e),
                Ok(rest) => Ok::<(Seq<TagView>, int), TiffError>((seq![first.0] + rest.0, rest.1)),
            },
        },
{
    reveal(spec_decode_tags);
}

impl Tag {
    /// Decodes one tag record standing at the cursor.
    pub fn from_buffer(buffer: &mut ByteCursor, btf: bool, le: bool) -> (r: Result<
        Tag,
        TiffError,
    >)
        ensures
            final(buffer).data@ == old(buffer).data@,
            match r {
                Ok(t) => spec_decode_tag(old(buffer).data@, old(buffer).pos as int, btf, le)
                    matches Ok(pair) && pair.0 == t@ && pair.1 == final(buffer).pos,
                Err(e) => spec_decode_tag(old(buffer).data@, old(buffer).pos as int, btf, le)
                    == Err::<(TagView, int), TiffError>(e),
            },
    {
        let raw = match buffer.read_u16(le) {
            Ok(v) => v,
            Err(e) => {
                return Err(e);
            },
        };
        let id = TagID::from_u16(raw);
        let data = match TagData::from_buffer(buffer, btf, le) {
            Ok(d) => d,
            Err(e) => {
                return Err(e);
            },
        };
        Ok(Tag { id, data })
    }
}

/// An image file directory: its anchor position, declared tag count, tags
/// (empty when decoded in skip mode) and the offset of the next directory
/// (zero at the end of the chain).
#[derive(Clone, Debug)]
pub struct IFD {
    /// The file position of the tag-count field, kept as a re-seek anchor.
    pub pos: u64,
    /// The tag count the directory declares.
    pub tag_count: u64,
    /// The decoded tags, in on-disk order; empty after a skip-mode decode.
    pub tags: Vec<Tag>,
    /// The absolute offset of the next directory; zero ends the chain.
    pub next_ifd: u64,
}

/// The mathematical shape of an [`IFD`].
#[verifier::ext_equal]
pub struct IfdView {
    /// The anchor position.
    pub pos: u64,
    /// The declared tag count.
    pub tag_count: u64,
    /// The tags, in on-disk order.
    pub tags: Seq<TagView>,
    /// The next-directory offset.
    pub next_ifd: u64,
}

impl View for IFD {
    type V = IfdView;

    open spec fn view(&self) -> IfdView {
        IfdView {
            pos: self.pos,
            tag_count: self.tag_count,
            tags: self.tags@.map_values(|t: Tag| t@),
            next_ifd: self.next_ifd,
        }
    }
}

/// What decoding a directory whose tag-count field begins at byte `pos`
/// yields: the directory and the position just after its next-directory
/// offset.
///
/// In skip mode the records are advanced over without being read; the
/// position arithmetic is the same as in a full decode, so both modes find
/// the next-directory offset at the same byte.
pub open spec fn spec_decode_ifd(
    data: Seq<u8>,
    pos: int,
    btf: bool,
    le: bool,
    skip: bool,
) -> Result<(IfdView, int), TiffError> {
    let len = data.len() as int;
    let ow = offset_width(btf);
    let cf: int = if btf {
        8
    } else {
        2
    };
    if pos + cf > len {
        Err(TiffError::UnexpectedEndOfBuffer)
    } else {
        let tag_count = if btf {
            u64_at(data, pos, le)
        } else {
            u16_at(data, pos, le) as u64
        };
        let tpos = pos + cf;
        if skip {
            let after = tpos + tag_count * tag_record_size(btf);
            if after > u64::MAX {
                Err(TiffError::UnexpectedEndOfBuffer)
            } else if after + ow > len {
                Err(TiffError::UnexpectedEndOfBuffer)
            } else {
                Ok(
                    (
                        IfdView {
                            pos: pos as u64,
                            tag_count,
                            tags: Seq::empty(),
                            next_ifd: offset_at(data, after, btf, le),
                        },
                        after + ow,
                    ),
                )
            }
        } else {
            match spec_decode_tags(data, tpos, tag_count as nat, btf, le) {
                Err(e) => Err(e),
                Ok((tags, after)) => {
                    if after + ow > len {
                        Err(TiffError::UnexpectedEndOfBuffer)
                    } else {
                        Ok(
                            (
                                IfdView {
                                    pos: pos as u64,
                                    tag_count,
                                    tags,
                                    next_ifd: offset_at(data, after, btf, le),
                                },
                                after + ow,
                            ),
                        )
                    }
                },
            }
        }
    }
}

/// The first tag of `tags` filed under `id`, if any.
pub open spec fn spec_find_tag(tags: Seq<TagView>, id: TagID) -> Option<TagView>
    decreases tags.len(),
{
    if tags.len() == 0 {
        None
    } else if tags[0].id == id {
        Some(tags[0])
    } else {
        spec_find_tag(tags.drop_first(), id)
    }
}

impl IFD {
    /// Decodes a directory standing at the cursor; in skip mode the tag
    /// records are advanced over without being materialized.
    #[verifier::rlimit(100)]
    pub fn from_buffer(buffer: &mut ByteCursor, btf: bool, le: bool, skip: bool) -> (r: Result<
        IFD,
        TiffError,
    >)
        ensures
            final(buffer).data@ == old(buffer).data@,
            match r {
                Ok(d) => spec_decode_ifd(old(buffer).data@, old(buffer).pos as int, btf, le, skip)
                    matches Ok(pair) && pair.0 == d@ && pair.1 == final(buffer).pos,
                Err(e) => spec_decode_ifd(old(buffer).data@, old(buffer).pos as int, btf, le, skip)
                    == Err::<(IfdView, int), TiffError>(e),
            },
    {
        let ghost data0 = buffer.data@;
        let pos = buffer.position();
        let tag_count: u64 = if btf {
            match buffer.read_u64(le) {
                Ok(v) => v,
                Err(e) => {
                    return Err(e);
                },
            }
        } else {
            match buffer.read_u16(le) {
                Ok(v) => v as u64,
                Err(e) => {
                    return Err(e);
                },
            }
        };
        let mut tags: Vec<Tag> = Vec::new();
        if skip {
            let rec: u64 = if btf {
                20
            } else {
                12
            };
            let tpos = buffer.position();
            // Advance over the records; a product past the end of the
            // 64-bit offset space cannot be sought to.
            if tag_count > (u64::MAX - tpos) / rec {
                proof {
                    assert(tpos + tag_count * rec > u64::MAX) by (nonlinear_arith)
                        requires
                            rec == 12 || rec == 20,
                            tag_count > (u64::MAX - tpos) / (rec as int),
                            tpos <= u64::MAX,
                    ;
                }
                return Err(TiffError::UnexpectedEndOfBuffer);
            }
            proof {
                assert(tag_count * rec <= u64::MAX - tpos) by (nonlinear_arith)
                    requires
                        rec == 12 || rec == 20,
                        tag_count <= (u64::MAX - tpos) / (rec as int),
                        tpos <= u64::MAX,
                ;
            }
            buffer.seek(tpos + tag_count * rec);
        } else {
            let ghost tpos0 = buffer.pos as int;
            let mut i: u64 = 0;
            while i < tag_count
                invariant
                    i <= tag_count,
                    buffer.data@ == data0,
                    match spec_decode_tags(data0, buffer.pos as int, (tag_count - i) as nat, btf, le) {
                        Ok(pair) => spec_decode_tags(data0, tpos0, tag_count as nat, btf, le)
                            == Ok::<(Seq<TagView>, int), TiffError>(
                            (tags@.map_values(|t: Tag| t@) + pair.0, pair.1),
                        ),
                        Err(e) => spec_decode_tags(data0, tpos0, tag_count as nat, btf, le)
                            == Err::<(Seq<TagView>, int), TiffError>(e),
                    },
                decreases tag_count - i,
            {
                let ghost p_i = buffer.pos as int;
                let ghost prefix = tags@.map_values(|t: Tag| t@);
                proof {
                    lemma_decode_tags_step(data0, p_i, (tag_count - i) as nat, btf, le);
                }
                let tag = match Tag::from_buffer(buffer, btf, le) {
                    Ok(t) => t,
                    Err(e) => {
                        return Err(e);
                    },
                };
                tags.push(tag);
                i = i + 1;
                proof {
                    let tv = tag@;
                    assert(tags@.map_values(|t: Tag| t@) =~= prefix.push(tv));
                    let rem = spec_decode_tags(data0, buffer.pos as int, (tag_count - i) as nat, btf, le);
                    if rem is Ok {
                        let (rest, end) = rem->Ok_0;
                        assert((prefix + (seq![tv] + rest)) =~= (prefix.push(tv) + rest));
                    }
                }
            }
        }
        proof {
            if !skip {
                lemma_decode_tags_zero(data0, buffer.pos as int, btf, le);
                assert(tags@.map_values(|t: Tag| t@) + Seq::<TagView>::empty() =~= tags@.map_values(
                    |t: Tag| t@,
                ));
            }
        }
        let next_ifd = match buffer.read_offset(btf, le) {
            Ok(v) => v,
            Err(e) => {
                return Err(e);
            },
        };
        let d = IFD { pos, tag_count, tags, next_ifd };
        proof {
            let spec_r = spec_decode_ifd(data0, pos as int, btf, le, skip);
            assert(spec_r is Ok);
            assert((spec_r->Ok_0).0 =~= d@);
        }
        Ok(d)
    }


    /// The image width, coerced to an unsigned integer; the tag must be
    /// present.
    pub fn width(&self) -> (r: Result<u64, TiffError>)
        ensures
            r == spec_width(self@),
    {
        let tag = match self.get_tag(TagID::BaselineTag(Baseline::ImageWidth)) {
            Ok(t) => t,
            Err(e) => {
                return Err(e);
            },
        };
        tag.data.as_unsigned_integer()
    }

    /// The image height, coerced to an unsigned integer; the tag must be
    /// present.
    pub fn height(&self) -> (r: Result<u64, TiffError>)
        ensures
            r == spec_height(self@),
    {
        let tag = match self.get_tag(TagID::BaselineTag(Baseline::ImageLength)) {
            Ok(t) => t,
            Err(e) => {
                return Err(e);
            },
        };
        tag.data.as_unsigned_integer()
    }

    /// The samples per pixel; a directory without the tag reports 1.
    pub fn samples(&self) -> (r: Result<u64, TiffError>)
        ensures
            r == spec_samples(self@),
    {
        match self.get_tag(TagID::BaselineTag(Baseline::SamplesPerPixel)) {
            Ok(tag) => tag.data.as_unsigned_integer(),
            Err(_) => Ok(1),
        }
    }

    /// The bits per sample of each channel; a directory without the tag
    /// reports a sequence of ones, one per sample.  The default sequence
    /// must be addressable, so its length is bounded by the machine.
    pub fn bpp(&self) -> (r: Result<Vec<u64>, TiffError>)
        requires
            spec_find_tag(self@.tags, TagID::BaselineTag(Baseline::BitsPerSample)) is None
                ==> match spec_samples(self@) {
                Ok(n) => n <= usize::MAX,
                Err(_) => true,
            },
        ensures
            match spec_bpp(self@) {
                Ok(s) => r matches Ok(v) && v@ == s,
                Err(e) => r == Err::<Vec<u64>, TiffError>(e),
            },
    {
        match self.get_tag(TagID::BaselineTag(Baseline::BitsPerSample)) {
            Ok(tag) => {
                return tag.data.as_unsigned_integers();
            },
            Err(_) => {},
        }
        let n = match self.samples() {
            Ok(n) => n,
            Err(e) => {
                return Err(e);
            },
        };
        let count = n as usize;
        let mut out: Vec<u64> = Vec::new();
        let mut i: usize = 0;
        while i < count
            invariant
                i <= count,
                out@ == Seq::new(i as nat, |j: int| 1u64),
            decreases count - i,
        {
            out.push(1);
            proof {
                assert(out@ =~= Seq::new((i + 1) as nat, |j: int| 1u64));
            }
            i = i + 1;
        }
        Ok(out)
    }

    /// The compression scheme the directory declares: no compression when
    /// the tag is absent, and an error for an unrecognized code.
    pub fn compression(&self) -> (r: Result<CompressionScheme, TiffError>)
        ensures
            r == spec_compression(self@),
    {
        match self.get_tag(TagID::BaselineTag(Baseline::Compression)) {
            Ok(tag) => {
                let n = match tag.data.as_unsigned_integer() {
                    Ok(n) => n,
                    Err(e) => {
                        return Err(e);
                    },
                };
                match CompressionScheme::from_number(n) {
                    Some(value) => Ok(value),
                    None => Err(TiffError::NotSupportedCompressionScheme),
                }
            },
            Err(_) => Ok(CompressionScheme::NoCompression),
        }
    }

    /// The first tag filed under `id`, or `CannotFindTag` if the directory
    /// holds none.
    pub fn get_tag(&self, id: TagID) -> (r: Result<&Tag, TiffError>)
        ensures
            match r {
                Ok(t) => spec_find_tag(self@.tags, id) == Some(t@),
                Err(e) => spec_find_tag(self@.tags, id) is None && e == TiffError::CannotFindTag,
            },
    {
        let n = self.tags.len();
        proof {
            assert(self@.tags.subrange(0, n as int) =~= self@.tags);
        }
        let mut i: usize = 0;
        while i < n
            invariant
                i <= n,
                n == self.tags.len(),
                spec_find_tag(self@.tags, id) == spec_find_tag(
                    self@.tags.subrange(i as int, n as int),
                    id,
                ),
            decreases n - i,
        {
            let t = &self.tags[i];
            proof {
                let tail = self@.tags.subrange(i as int, n as int);
                assert(tail[0] == self@.tags[i as int]);
                assert(tail.drop_first() =~= self@.tags.subrange(i as int + 1, n as int));
            }
            if t.id == id {
                return Ok(t);
            }
            i = i + 1;
        }
        proof {
            assert(self@.tags.subrange(n as int, n as int) =~= Seq::<TagView>::empty());
        }
        Err(TiffError::CannotFindTag)
    }
}


/// What the width accessor yields: the image-width tag must be present and
/// coerce to one unsigned integer.
pub open spec fn spec_width(v: IfdView) -> Result<u64, TiffError> {
    match spec_find_tag(v.tags, TagID::BaselineTag(Baseline::ImageWidth)) {
        None => Err(TiffError::CannotFindTag),
        Some(t) => spec_as_u64_single(t.data),
    }
}

/// What the height accessor yields, from the image-length tag.
pub open spec fn spec_height(v: IfdView) -> Result<u64, TiffError> {
    match spec_find_tag(v.tags, TagID::BaselineTag(Baseline::ImageLength)) {
        None => Err(TiffError::CannotFindTag),
        Some(t) => spec_as_u64_single(t.data),
    }
}

/// What the samples accessor yields: the samples-per-pixel tag, or 1 when
/// the directory lacks one.
pub open spec fn spec_samples(v: IfdView) -> Result<u64, TiffError> {
    match spec_find_tag(v.tags, TagID::BaselineTag(Baseline::SamplesPerPixel)) {
        None => Ok(1),
        Some(t) => spec_as_u64_single(t.data),
    }
}

/// What the bits-per-sample accessor yields: the tag's elements, or a
/// sequence of ones whose length is the samples count when the directory
/// lacks one.
pub open spec fn spec_bpp(v: IfdView) -> Result<Seq<u64>, TiffError> {
    match spec_find_tag(v.tags, TagID::BaselineTag(Baseline::BitsPerSample)) {
        Some(t) => spec_as_u64_array(t.data),
        None => match spec_samples(v) {
            Ok(n) => Ok(Seq::new(n as nat, |i: int| 1u64)),
            Err(e) => Err(e),
        },
    }
}

/// What the compression accessor yields: no compression when the tag is
/// absent; a recognized scheme code when present; otherwise its own error.
pub open spec fn spec_compression(v: IfdView) -> Result<CompressionScheme, TiffError> {
    match spec_find_tag(v.tags, TagID::BaselineTag(Baseline::Compression)) {
        None => Ok(CompressionScheme::NoCompression),
        Some(t) => match spec_as_u64_single(t.data) {
            Err(e) => Err(e),
            Ok(n) => match spec_scheme_from(n) {
                Some(s) => Ok(s),
                None => Err(TiffError::NotSupportedCompressionScheme),
            },
        },
    }
}

/// A directory without a samples-per-pixel tag reports one sample, and
/// without a bits-per-sample tag reports a sequence of ones of that
/// length.
pub proof fn lemma_accessor_defaults(v: IfdView)
    requires
        spec_find_tag(v.tags, TagID::BaselineTag(Baseline::SamplesPerPixel)) is None,
        spec_find_tag(v.tags, TagID::BaselineTag(Baseline::BitsPerSample)) is None,
    ensures
        spec_samples(v) == Ok::<u64, TiffError>(1),
        spec_bpp(v) == Ok::<Seq<u64>, TiffError>(Seq::new(1, |i: int| 1u64)),
{
}

/// Decoded records advance the position by exactly the fixed record size
/// each: `n` records end `n` record sizes after they begin.
pub proof fn lemma_decode_tags_advance(data: Seq<u8>, pos: int, n: nat, btf: bool, le: bool)
    requires
        spec_decode_tags(data, pos, n, btf, le) is Ok,
    ensures
        (spec_decode_tags(data, pos, n, btf, le)->Ok_0).1 == pos + n * tag_record_size(btf),
        (spec_decode_tags(data, pos, n, btf, le)->Ok_0).0.len() == n,
    decreases n,
{
    let rec = tag_record_size(btf);
    if n == 0 {
        lemma_decode_tags_zero(data, pos, btf, le);
    } else {
        lemma_decode_tags_step(data, pos, n, btf, le);
        let first = spec_decode_tag(data, pos, btf, le)->Ok_0;
        lemma_tag_record_advance(data, pos, btf, le);
        lemma_decode_tags_advance(data, first.1, (n - 1) as nat, btf, le);
        assert(pos + rec + (n - 1) * rec == pos + n * rec) by (nonlinear_arith);
    }
}

/// Skip mode and full mode account bytes identically: when a directory
/// decodes in full, the skip-mode decode of the same bytes yields the same
/// anchor, declared count, next offset and end position, with the tags
/// simply left unmaterialized.
pub proof fn lemma_skip_full_agree(data: Seq<u8>, pos: int, btf: bool, le: bool)
    requires
        data.len() <= u64::MAX,
        spec_decode_ifd(data, pos, btf, le, false) is Ok,
    ensures
        spec_decode_ifd(data, pos, btf, le, true) matches Ok(skim) && spec_decode_ifd(
            data,
            pos,
            btf,
            le,
            false,
        ) matches Ok(full) && skim.0.pos == full.0.pos && skim.0.tag_count == full.0.tag_count
            && skim.0.next_ifd == full.0.next_ifd && skim.0.tags == Seq::<TagView>::empty()
            && skim.1 == full.1,
{
    let cf: int = if btf {
        8
    } else {
        2
    };
    let tag_count = if btf {
        u64_at(data, pos, le)
    } else {
        u16_at(data, pos, le) as u64
    };
    let tpos = pos + cf;
    lemma_decode_tags_advance(data, tpos, tag_count as nat, btf, le);
}

} // verus!
