use tiff_reader::enums::CompressionScheme;
use tiff_reader::error::TiffError;
use tiff_reader::tagid::{Baseline, Extension, TagID};
use tiff_reader::tiff::Tiff;

fn le16(v: u16) -> [u8; 2] {
    v.to_le_bytes()
}

fn le32(v: u32) -> [u8; 4] {
    v.to_le_bytes()
}

/// A Classic little-endian file with one directory of Short-valued tags,
/// given as (identity, value) pairs.
fn classic_file(tags: &[(u16, u16)]) -> Vec<u8> {
    let mut d = vec![0x49, 0x49, 42, 0];
    d.extend_from_slice(&le32(8));
    d.extend_from_slice(&le16(tags.len() as u16));
    for &(id, value) in tags {
        d.extend_from_slice(&le16(id));
        d.extend_from_slice(&le16(3));
        d.extend_from_slice(&le32(1));
        d.extend_from_slice(&le16(value));
        d.extend_from_slice(&le16(0));
    }
    d.extend_from_slice(&le32(0));
    d
}

/// The minimal end-to-end walk: one directory with a width and a length
/// tag, no next directory.
#[test]
fn minimal_classic_file_end_to_end() {
    let data = classic_file(&[(0x0100, 100), (0x0101, 80)]);
    let tiff = Tiff::from_bytes(data, true).unwrap();
    assert_eq!(tiff.len(), 1);
    let ifd = tiff.read_frame(0).unwrap();
    assert_eq!(ifd.width().unwrap(), 100);
    assert_eq!(ifd.height().unwrap(), 80);
    assert_eq!(ifd.samples().unwrap(), 1);
    assert_eq!(ifd.bpp().unwrap(), vec![1]);
    assert_eq!(ifd.compression().unwrap(), CompressionScheme::NoCompression);
}

#[test]
fn width_absent_is_cannot_find_tag() {
    let data = classic_file(&[(0x0101, 80)]);
    let ifd = Tiff::from_bytes(data, true).unwrap().read_frame(0).unwrap();
    assert_eq!(ifd.width().unwrap_err(), TiffError::CannotFindTag);
    assert_eq!(ifd.height().unwrap(), 80);
}

/// A directory without a samples-per-pixel tag reports one sample, and
/// without a bits-per-sample tag a sequence of ones of that length.
#[test]
fn samples_and_bpp_defaults() {
    let data = classic_file(&[(0x0100, 4)]);
    let ifd = Tiff::from_bytes(data, true).unwrap().read_frame(0).unwrap();
    assert_eq!(ifd.samples().unwrap(), 1);
    assert_eq!(ifd.bpp().unwrap(), vec![1]);
}

#[test]
fn bpp_default_follows_declared_samples() {
    let data = classic_file(&[(0x0115, 3)]);
    let ifd = Tiff::from_bytes(data, true).unwrap().read_frame(0).unwrap();
    assert_eq!(ifd.samples().unwrap(), 3);
    assert_eq!(ifd.bpp().unwrap(), vec![1, 1, 1]);
}

#[test]
fn bpp_present_wins_over_default() {
    // BitsPerSample with three Short elements lives behind an offset:
    // 8 + 2 + 12 + 4 = 26 is the first free byte.
    let mut d = vec![0x49, 0x49, 42, 0];
    d.extend_from_slice(&le32(8));
    d.extend_from_slice(&le16(1));
    d.extend_from_slice(&le16(0x0102));
    d.extend_from_slice(&le16(3));
    d.extend_from_slice(&le32(3));
    d.extend_from_slice(&le32(26));
    d.extend_from_slice(&le32(0));
    d.extend_from_slice(&le16(8));
    d.extend_from_slice(&le16(8));
    d.extend_from_slice(&le16(8));
    let ifd = Tiff::from_bytes(d, true).unwrap().read_frame(0).unwrap();
    assert_eq!(ifd.bpp().unwrap(), vec![8, 8, 8]);
}

#[test]
fn compression_codes_map_to_schemes() {
    for (code, scheme) in [
        (1, CompressionScheme::NoCompression),
        (5, CompressionScheme::LZW),
        (8, CompressionScheme::AdobeDeflate),
    ] {
        let data = classic_file(&[(0x0103, code)]);
        let ifd = Tiff::from_bytes(data, true).unwrap().read_frame(0).unwrap();
        assert_eq!(ifd.compression().unwrap(), scheme);
    }
}

#[test]
fn unrecognized_compression_code_is_its_own_error() {
    let data = classic_file(&[(0x0103, 2)]);
    let ifd = Tiff::from_bytes(data, true).unwrap().read_frame(0).unwrap();
    assert_eq!(
        ifd.compression().unwrap_err(),
        TiffError::NotSupportedCompressionScheme
    );
}

#[test]
fn compression_scheme_numbers_round_trip() {
    for scheme in [
        CompressionScheme::NoCompression,
        CompressionScheme::LZW,
        CompressionScheme::AdobeDeflate,
        CompressionScheme::PackBits,
        CompressionScheme::Deflate,
    ] {
        assert_eq!(
            CompressionScheme::from_number(scheme.to_number()),
            Some(scheme)
        );
    }
    assert_eq!(CompressionScheme::from_number(3), None);
    assert_eq!(CompressionScheme::PackBits.to_number(), 32773);
}

#[test]
fn tag_identity_classification() {
    assert_eq!(
        TagID::from_u16(0x0100),
        TagID::BaselineTag(Baseline::ImageWidth)
    );
    assert_eq!(
        TagID::from_u16(0x8298),
        TagID::BaselineTag(Baseline::Copyright)
    );
    assert_eq!(
        TagID::from_u16(0x010D),
        TagID::ExtensionTag(Extension::DocumentName)
    );
    assert_eq!(
        TagID::from_u16(0x87AC),
        TagID::ExtensionTag(Extension::ImageLayer)
    );
    assert_eq!(TagID::from_u16(0x9999), TagID::PrivateTag(0x9999));
}

#[test]
fn tag_identity_numbers_round_trip() {
    for raw in [0x0100u16, 0x0115, 0x010D, 0x02BC, 0x9999, 0] {
        assert_eq!(TagID::from_u16(raw).to_u16(), raw);
    }
    assert_eq!(Baseline::from_u16(0x0115).unwrap(), Baseline::SamplesPerPixel);
    assert_eq!(Baseline::from_u16(0x9999).unwrap_err(), TiffError::UnknownTagId);
    assert_eq!(Extension::from_u16(0x0142).unwrap(), Extension::TileWidth);
    assert_eq!(Baseline::SamplesPerPixel.to_u16(), 0x0115);
    assert_eq!(Extension::TileWidth.to_u16(), 0x0142);
}
