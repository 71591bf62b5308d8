use tiff_reader::bytes::ByteCursor;
use tiff_reader::error::TiffError;
use tiff_reader::header::Header;

fn parse(bytes: Vec<u8>) -> Result<Header, TiffError> {
    let mut cur = ByteCursor::new(bytes);
    Header::from_buffer(&mut cur)
}

#[test]
fn classic_le_header_widens_offset() {
    let h = parse(vec![0x49, 0x49, 42, 0, 0x10, 0x00, 0x00, 0x00]).unwrap();
    assert_eq!(h.byte_order, 0x4949);
    assert_eq!(h.version, 42);
    assert_eq!(h.first_ifd, 0x10);
    assert!(h.is_le());
    assert!(!h.is_btf());
}

#[test]
fn classic_be_header_widens_offset() {
    let h = parse(vec![0x4d, 0x4d, 0, 42, 0x12, 0x34, 0x56, 0x78]).unwrap();
    assert_eq!(h.byte_order, 0x4d4d);
    assert_eq!(h.version, 42);
    assert_eq!(h.first_ifd, 0x12345678);
    assert!(!h.is_le());
    assert!(!h.is_btf());
}

#[test]
fn classic_header_large_offset_is_not_truncated() {
    let h = parse(vec![0x49, 0x49, 42, 0, 0xff, 0xff, 0xff, 0xff]).unwrap();
    assert_eq!(h.first_ifd, 0xffff_ffff);
}

#[test]
fn big_le_header() {
    let h = parse(vec![
        0x49, 0x49, 43, 0, 8, 0, 0, 0, 0x10, 0, 0, 0, 0, 0, 0, 0,
    ])
    .unwrap();
    assert_eq!(h.version, 43);
    assert!(h.is_btf());
    assert!(h.is_le());
    assert_eq!(h.first_ifd, 0x10);
}

#[test]
fn big_be_header() {
    let h = parse(vec![
        0x4d, 0x4d, 0, 43, 0, 8, 0, 0, 0, 0, 0, 0, 0, 0, 0, 0x10,
    ])
    .unwrap();
    assert!(h.is_btf());
    assert!(!h.is_le());
    assert_eq!(h.first_ifd, 0x10);
}

#[test]
fn bad_byte_order_is_its_own_error() {
    let r = parse(vec![0x49, 0x4d, 42, 0, 0, 0, 0, 0]);
    assert_eq!(r.unwrap_err(), TiffError::UnexpectedHeaderByteOrder);
}

#[test]
fn bad_version_is_its_own_error() {
    let r = parse(vec![0x49, 0x49, 41, 0, 0, 0, 0, 0]);
    assert_eq!(r.unwrap_err(), TiffError::UnexpectedHeaderVersion);
}

#[test]
fn big_header_bad_offset_size_is_specific() {
    // Version 43 with an offset-size of 4 must name the offset size,
    // never a generic failure.
    let r = parse(vec![
        0x49, 0x49, 43, 0, 4, 0, 0, 0, 0x10, 0, 0, 0, 0, 0, 0, 0,
    ]);
    assert_eq!(r.unwrap_err(), TiffError::UnexpectedHeaderOffsetSize);
}

#[test]
fn big_header_bad_reserved_is_specific() {
    let r = parse(vec![
        0x49, 0x49, 43, 0, 8, 0, 1, 0, 0x10, 0, 0, 0, 0, 0, 0, 0,
    ]);
    assert_eq!(r.unwrap_err(), TiffError::UnexpectedHeaderReserved);
}

#[test]
fn truncated_header_is_short_read() {
    let r = parse(vec![0x49, 0x49, 42, 0, 1]);
    assert_eq!(r.unwrap_err(), TiffError::UnexpectedEndOfBuffer);
}

#[test]
fn empty_input_is_short_read() {
    let r = parse(vec![]);
    assert_eq!(r.unwrap_err(), TiffError::UnexpectedEndOfBuffer);
}
