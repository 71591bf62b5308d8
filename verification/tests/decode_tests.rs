use tiff_reader::error::TiffError;
use tiff_reader::tagid::{Baseline, TagID};
use tiff_reader::tiff::Tiff;
use tiff_reader::value::{TagData, URational};

struct Builder {
    data: Vec<u8>,
    le: bool,
}

impl Builder {
    fn new(le: bool) -> Builder {
        Builder { data: Vec::new(), le }
    }

    fn u16(&mut self, v: u16) {
        let b = if self.le { v.to_le_bytes() } else { v.to_be_bytes() };
        self.data.extend_from_slice(&b);
    }

    fn u32(&mut self, v: u32) {
        let b = if self.le { v.to_le_bytes() } else { v.to_be_bytes() };
        self.data.extend_from_slice(&b);
    }

    fn u64(&mut self, v: u64) {
        let b = if self.le { v.to_le_bytes() } else { v.to_be_bytes() };
        self.data.extend_from_slice(&b);
    }

    fn bytes(&mut self, b: &[u8]) {
        self.data.extend_from_slice(b);
    }

    fn classic_header(&mut self, first_ifd: u32) {
        if self.le {
            self.bytes(&[0x49, 0x49]);
        } else {
            self.bytes(&[0x4d, 0x4d]);
        }
        self.u16(42);
        self.u32(first_ifd);
    }

    fn big_header(&mut self, first_ifd: u64) {
        if self.le {
            self.bytes(&[0x49, 0x49]);
        } else {
            self.bytes(&[0x4d, 0x4d]);
        }
        self.u16(43);
        self.u16(8);
        self.u16(0);
        self.u64(first_ifd);
    }
}

/// A Classic little-endian file whose one directory holds several kinds,
/// both inline and through offsets: decoding must reproduce the ordered
/// tag list and the next offset exactly.
#[test]
fn directory_reproduces_ordered_tags_and_next_offset() {
    let mut b = Builder::new(true);
    b.classic_header(8);
    // Directory at 8: six tags, then next-offset 0.  The offset blocks
    // follow the directory, which ends at 8 + 2 + 6 * 12 + 4 = 86.
    b.u16(6);
    // Byte, count 3, inline with one padding byte.
    b.u16(0x9000);
    b.u16(1);
    b.u32(3);
    b.bytes(&[1, 2, 3, 0]);
    // Short, count 2, exactly filling the field.
    b.u16(0x9001);
    b.u16(3);
    b.u32(2);
    b.u16(0x1234);
    b.u16(0x5678);
    // Long, count 2, through an offset (block at 86).
    b.u16(0x9002);
    b.u16(4);
    b.u32(2);
    b.u32(86);
    // Rational, count 1, through an offset (block at 94).
    b.u16(0x9003);
    b.u16(5);
    b.u32(1);
    b.u32(94);
    // SShort, count 1, inline with two padding bytes.
    b.u16(0x9004);
    b.u16(8);
    b.u32(1);
    b.u16(0xfffe);
    b.u16(0);
    // Double, count 1, through an offset (block at 102).
    b.u16(0x9005);
    b.u16(12);
    b.u32(1);
    b.u32(102);
    // Next-directory offset.
    b.u32(0);
    // Block at 86: two longs.
    b.u32(0xdead_beef);
    b.u32(7);
    // Block at 94: one rational.
    b.u32(6);
    b.u32(3);
    // Block at 102: one double.
    b.u64(3.5f64.to_bits());

    let tiff = Tiff::from_bytes(b.data, false).unwrap();
    assert_eq!(tiff.len(), 1);
    let ifd = &tiff.ifd[0];
    assert_eq!(ifd.pos, 8);
    assert_eq!(ifd.tag_count, 6);
    assert_eq!(ifd.next_ifd, 0);
    assert_eq!(ifd.tags.len(), 6);

    assert_eq!(ifd.tags[0].id, TagID::PrivateTag(0x9000));
    assert!(matches!(&ifd.tags[0].data, TagData::Byte(v) if *v == vec![1, 2, 3]));
    assert_eq!(ifd.tags[1].id, TagID::PrivateTag(0x9001));
    assert!(matches!(&ifd.tags[1].data, TagData::Short(v) if *v == vec![0x1234, 0x5678]));
    assert!(matches!(&ifd.tags[2].data, TagData::Long(v) if *v == vec![0xdead_beef, 7]));
    assert!(
        matches!(&ifd.tags[3].data, TagData::Rational(v) if *v == vec![URational { num: 6, den: 3 }])
    );
    assert!(matches!(&ifd.tags[4].data, TagData::SShort(v) if *v == vec![-2]));
    assert!(matches!(&ifd.tags[5].data, TagData::Double(v) if *v == vec![3.5f64.to_bits()]));
}

/// Re-reading a frame after a skip-mode pass yields the same tags as the
/// full decode of the whole file.
#[test]
fn read_frame_matches_full_decode() {
    let mut b = Builder::new(true);
    b.classic_header(8);
    b.u16(2);
    b.u16(0x9000);
    b.u16(3);
    b.u32(1);
    b.u16(41);
    b.u16(0);
    b.u16(0x9001);
    b.u16(4);
    b.u32(1);
    b.u32(99);
    b.u32(0);

    let full = Tiff::from_bytes(b.data.clone(), false).unwrap();
    let skim = Tiff::from_bytes(b.data, true).unwrap();
    assert_eq!(skim.len(), 1);
    // The indexing pass left the tags unmaterialized.
    assert!(skim.ifd[0].tags.is_empty());
    assert_eq!(skim.ifd[0].tag_count, 2);
    let frame = skim.read_frame(0).unwrap();
    assert_eq!(frame.tags.len(), 2);
    for (a, b) in frame.tags.iter().zip(full.ifd[0].tags.iter()) {
        assert_eq!(a.id, b.id);
        match (&a.data, &b.data) {
            (TagData::Short(x), TagData::Short(y)) => assert_eq!(x, y),
            (TagData::Long(x), TagData::Long(y)) => assert_eq!(x, y),
            _ => panic!("kinds differ"),
        }
    }
}

#[test]
fn read_frame_out_of_range_is_invalid_index() {
    let mut b = Builder::new(true);
    b.classic_header(8);
    b.u16(0);
    b.u32(0);
    let tiff = Tiff::from_bytes(b.data, true).unwrap();
    assert_eq!(tiff.len(), 1);
    assert_eq!(tiff.read_frame(1).unwrap_err(), TiffError::InvalidIndex);
    assert_eq!(tiff.read_frame(usize::MAX).unwrap_err(), TiffError::InvalidIndex);
}

/// A value whose byte size exactly fills the offset field is stored
/// inline; one byte more goes through an offset.  Either way the decoder
/// continues at the same place, so a marker tag after the boundary tag
/// must decode identically in both variants.
#[test]
fn inline_offset_boundary_and_cursor_restore() {
    // Inline: ASCII of 4 bytes fills the 4-byte Classic value field.
    let mut b = Builder::new(true);
    b.classic_header(8);
    b.u16(2);
    b.u16(0x9000);
    b.u16(2);
    b.u32(4);
    b.bytes(b"abcd");
    b.u16(0x9001);
    b.u16(3);
    b.u32(1);
    b.u16(7);
    b.u16(0);
    b.u32(0);
    let tiff = Tiff::from_bytes(b.data, false).unwrap();
    let tags = &tiff.ifd[0].tags;
    assert!(matches!(&tags[0].data, TagData::Ascii(v) if *v == b"abcd".to_vec()));
    assert!(matches!(&tags[1].data, TagData::Short(v) if *v == vec![7]));

    // One byte larger: ASCII of 5 bytes must go through an offset, and
    // the marker tag after it must still decode the same way.
    let mut b = Builder::new(true);
    b.classic_header(8);
    b.u16(2);
    b.u16(0x9000);
    b.u16(2);
    b.u32(5);
    b.u32(38);  // 8 + 2 + 24 + 4 = 38: the block follows the directory
    b.u16(0x9001);
    b.u16(3);
    b.u32(1);
    b.u16(7);
    b.u16(0);
    b.u32(0);
    b.bytes(b"abcde");
    let tiff = Tiff::from_bytes(b.data, false).unwrap();
    let tags = &tiff.ifd[0].tags;
    assert!(matches!(&tags[0].data, TagData::Ascii(v) if *v == b"abcde".to_vec()));
    assert!(matches!(&tags[1].data, TagData::Short(v) if *v == vec![7]));
}

/// In a BigTIFF the value field is 8 bytes, so two longs sit inline where
/// Classic would need an offset.
#[test]
fn big_value_field_holds_eight_bytes_inline() {
    let mut b = Builder::new(false);
    b.big_header(16);
    b.u64(1);
    b.u16(0x9000);
    b.u16(4);
    b.u64(2);
    b.u32(0xcafe_f00d);
    b.u32(0x1234_5678);
    b.u64(0);
    let tiff = Tiff::from_bytes(b.data, false).unwrap();
    let tags = &tiff.ifd[0].tags;
    assert!(matches!(&tags[0].data, TagData::Long(v) if *v == vec![0xcafe_f00d, 0x1234_5678]));
}

#[test]
fn chain_of_two_directories() {
    let mut b = Builder::new(true);
    b.classic_header(8);
    // Directory at 8: empty, next at 14.
    b.u16(0);
    b.u32(14);
    // Directory at 14: empty, end of chain.
    b.u16(0);
    b.u32(0);
    let tiff = Tiff::from_bytes(b.data, true).unwrap();
    assert_eq!(tiff.len(), 2);
    assert_eq!(tiff.ifd[0].pos, 8);
    assert_eq!(tiff.ifd[0].next_ifd, 14);
    assert_eq!(tiff.ifd[1].pos, 14);
    assert_eq!(tiff.ifd[1].next_ifd, 0);
}

/// A chain that points back at itself cannot terminate; the walk rejects
/// it instead of looping forever.
#[test]
fn cyclic_chain_is_rejected() {
    let mut b = Builder::new(true);
    b.classic_header(8);
    b.u16(0);
    b.u32(8);
    let r = Tiff::from_bytes(b.data, true);
    assert_eq!(r.unwrap_err(), TiffError::UnknownBufferError);
}

#[test]
fn unknown_kind_fails_full_decode_but_not_skip() {
    let mut b = Builder::new(true);
    b.classic_header(8);
    b.u16(1);
    b.u16(0x9000);
    b.u16(99);
    b.u32(1);
    b.u32(0);
    b.u32(0);
    let r = Tiff::from_bytes(b.data.clone(), false);
    assert_eq!(r.unwrap_err(), TiffError::UnknownTagKind);
    // The indexing pass never reads the record, so it only fails when the
    // frame is actually decoded.
    let tiff = Tiff::from_bytes(b.data, true).unwrap();
    assert_eq!(tiff.read_frame(0).unwrap_err(), TiffError::UnknownTagKind);
}

#[test]
fn truncated_directory_is_short_read() {
    let mut b = Builder::new(true);
    b.classic_header(8);
    b.u16(2);
    b.u16(0x9000);
    let r = Tiff::from_bytes(b.data, false);
    assert_eq!(r.unwrap_err(), TiffError::UnexpectedEndOfBuffer);
}

#[test]
fn first_offset_beyond_end_is_short_read() {
    let mut b = Builder::new(true);
    b.classic_header(1000);
    let r = Tiff::from_bytes(b.data, true);
    assert_eq!(r.unwrap_err(), TiffError::UnexpectedEndOfBuffer);
}

#[test]
fn get_tag_finds_by_identity_only() {
    let mut b = Builder::new(true);
    b.classic_header(8);
    b.u16(1);
    b.u16(0x0100);
    b.u16(3);
    b.u32(1);
    b.u16(640);
    b.u16(0);
    b.u32(0);
    let tiff = Tiff::from_bytes(b.data, false).unwrap();
    let ifd = &tiff.ifd[0];
    let t = ifd.get_tag(TagID::BaselineTag(Baseline::ImageWidth)).unwrap();
    assert!(matches!(&t.data, TagData::Short(v) if *v == vec![640]));
    assert_eq!(
        ifd.get_tag(TagID::BaselineTag(Baseline::ImageLength)).unwrap_err(),
        TiffError::CannotFindTag
    );
}
