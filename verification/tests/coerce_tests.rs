use tiff_reader::error::TiffError;
use tiff_reader::value::{SRational, TagData, URational};

#[test]
fn rational_six_thirds_is_two() {
    let d = TagData::Rational(vec![URational { num: 6, den: 3 }]);
    assert_eq!(d.as_unsigned_integer().unwrap(), 2);
    assert_eq!(d.as_signed_integer().unwrap(), 2);
}

#[test]
fn rational_zero_denominator_fails_integer_coercion() {
    let d = TagData::Rational(vec![URational { num: 6, den: 0 }]);
    assert_eq!(
        d.as_unsigned_integer().unwrap_err(),
        TiffError::IncompatibleTagDataKind
    );
    assert_eq!(
        d.as_signed_integer().unwrap_err(),
        TiffError::IncompatibleTagDataKind
    );
}

#[test]
fn rational_inexact_division_fails() {
    let d = TagData::Rational(vec![URational { num: 7, den: 3 }]);
    assert_eq!(
        d.as_unsigned_integer().unwrap_err(),
        TiffError::IncompatibleTagDataKind
    );
}

#[test]
fn srational_signs_combine() {
    let d = TagData::SRational(vec![SRational { num: -6, den: 3 }]);
    assert_eq!(d.as_signed_integer().unwrap(), -2);
    assert_eq!(
        d.as_unsigned_integer().unwrap_err(),
        TiffError::IncompatibleTagDataKind
    );
    let d = TagData::SRational(vec![SRational { num: 6, den: -3 }]);
    assert_eq!(d.as_signed_integer().unwrap(), -2);
    let d = TagData::SRational(vec![SRational { num: -6, den: -3 }]);
    assert_eq!(d.as_signed_integer().unwrap(), 2);
    assert_eq!(d.as_unsigned_integer().unwrap(), 2);
}

#[test]
fn float_half_fraction_fails_integer_coercion() {
    let d = TagData::Float(vec![2.5f32.to_bits()]);
    assert_eq!(
        d.as_unsigned_integer().unwrap_err(),
        TiffError::IncompatibleTagDataKind
    );
    assert_eq!(
        d.as_signed_integer().unwrap_err(),
        TiffError::IncompatibleTagDataKind
    );
}

#[test]
fn float_whole_value_coerces() {
    let d = TagData::Float(vec![2.0f32.to_bits()]);
    assert_eq!(d.as_unsigned_integer().unwrap(), 2);
    assert_eq!(d.as_signed_integer().unwrap(), 2);
    let d = TagData::Float(vec![(-3.0f32).to_bits()]);
    assert_eq!(d.as_signed_integer().unwrap(), -3);
    assert_eq!(
        d.as_unsigned_integer().unwrap_err(),
        TiffError::IncompatibleTagDataKind
    );
}

#[test]
fn double_whole_value_coerces() {
    let d = TagData::Double(vec![1234567.0f64.to_bits()]);
    assert_eq!(d.as_unsigned_integer().unwrap(), 1234567);
    let d = TagData::Double(vec![(-0.0f64).to_bits()]);
    assert_eq!(d.as_unsigned_integer().unwrap(), 0);
    assert_eq!(d.as_signed_integer().unwrap(), 0);
}

#[test]
fn double_nan_and_infinity_fail() {
    let d = TagData::Double(vec![f64::NAN.to_bits()]);
    assert_eq!(
        d.as_signed_integer().unwrap_err(),
        TiffError::IncompatibleTagDataKind
    );
    let d = TagData::Double(vec![f64::INFINITY.to_bits()]);
    assert_eq!(
        d.as_unsigned_integer().unwrap_err(),
        TiffError::IncompatibleTagDataKind
    );
}

#[test]
fn double_beyond_u64_range_fails() {
    let d = TagData::Double(vec![1.0e30f64.to_bits()]);
    assert_eq!(
        d.as_unsigned_integer().unwrap_err(),
        TiffError::IncompatibleTagDataKind
    );
}

#[test]
fn unsigned_above_signed_maximum_fails_signed_coercion() {
    let d = TagData::Long8(vec![0x8000_0000_0000_0000]);
    assert_eq!(
        d.as_signed_integer().unwrap_err(),
        TiffError::IncompatibleTagDataKind
    );
    assert_eq!(d.as_unsigned_integer().unwrap(), 0x8000_0000_0000_0000);
}

#[test]
fn negative_signed_fails_unsigned_coercion() {
    let d = TagData::SLong(vec![-5]);
    assert_eq!(d.as_signed_integer().unwrap(), -5);
    assert_eq!(
        d.as_unsigned_integer().unwrap_err(),
        TiffError::IncompatibleTagDataKind
    );
}

#[test]
fn scalar_accessor_demands_exactly_one_element() {
    let d = TagData::Short(vec![1, 2]);
    assert_eq!(
        d.as_unsigned_integer().unwrap_err(),
        TiffError::IncompatibleTagDataKind
    );
    let d = TagData::Short(vec![]);
    assert_eq!(
        d.as_signed_integer().unwrap_err(),
        TiffError::IncompatibleTagDataKind
    );
}

#[test]
fn array_accessor_converts_element_wise() {
    let d = TagData::Short(vec![1, 2, 3]);
    assert_eq!(d.as_unsigned_integers().unwrap(), vec![1, 2, 3]);
    assert_eq!(d.as_signed_integers().unwrap(), vec![1, 2, 3]);
    let d = TagData::SByte(vec![-1, 2]);
    assert_eq!(d.as_signed_integers().unwrap(), vec![-1, 2]);
    assert_eq!(
        d.as_unsigned_integers().unwrap_err(),
        TiffError::IncompatibleTagDataKind
    );
}

#[test]
fn empty_array_accessor_is_empty() {
    let d = TagData::Long(vec![]);
    assert_eq!(d.as_unsigned_integers().unwrap(), Vec::<u64>::new());
}

#[test]
fn ascii_bytes_widen_like_bytes() {
    let d = TagData::Ascii(vec![65]);
    assert_eq!(d.as_unsigned_integer().unwrap(), 65);
}
