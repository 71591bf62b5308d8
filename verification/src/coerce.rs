//! Numeric coercion of typed scalars into 64-bit integers.
//!
//! Every tag kind converts by the same rules: unsigned sources widen,
//! signed sources demand non-negativity for an unsigned target, rationals
//! demand a nonzero denominator and exact divisibility, and floating-point
//! sources demand a finite value that is exactly an integer in range.
//!
//! Floating-point scalars are carried as IEEE 754 bit patterns, so their
//! integer meaning is computed here from the bits themselves: a finite
//! binary64 value equals `(-1)^sign * mantissa * 2^(exponent - 1075)` (with
//! the exponent field zero marking subnormals, whose scale is `2^-1074`),
//! and a binary32 value the same with 23 fraction bits, bias offset 150 and
//! subnormal scale `2^-149`.

use vstd::arithmetic::div_mod::{lemma_div_nonincreasing, lemma_div_pos_is_pos, lemma_small_mod};
use vstd::arithmetic::mul::lemma_mul_inequality;
use vstd::arithmetic::power2::{lemma2_to64, lemma_pow2_pos, lemma_pow2_strictly_increases, pow2};
use vstd::bits::{
    lemma_u64_low_bits_mask_is_mod, lemma_u64_mul_pow2_le_max_iff_max_shr,
    lemma_u64_pow2_no_overflow, lemma_u64_shl_is_mul, lemma_u64_shr_is_div, low_bits_mask,
};
use vstd::math::abs;
use vstd::prelude::*;

use crate::error::TiffError;
use crate::value::{elem_count, SRational, TagData, TagDataView, URational};

verus! {

/// The integer that `m * 2^p` equals, if it equals one.
pub open spec fn shifted_int(m: u64, p: int) -> Option<int> {
    if p >= 0 {
        Some(m * pow2(p as nat))
    } else if (m as int) % (pow2((-p) as nat) as int) == 0 {
        Some((m as int) / (pow2((-p) as nat) as int))
    } else {
        None
    }
}

/// The sign bit of a binary64 pattern.
pub open spec fn f64_is_neg(bits: u64) -> bool {
    bits >> 63 == 1
}

/// The 11-bit exponent field of a binary64 pattern.
pub open spec fn f64_exp(bits: u64) -> u64 {
    (bits >> 52) & 0x7ff
}

/// The 52-bit fraction field of a binary64 pattern.
pub open spec fn f64_frac(bits: u64) -> u64 {
    bits & 0xf_ffff_ffff_ffff
}

/// A binary64 pattern is finite unless its exponent field is all ones
/// (infinities and NaNs).
pub open spec fn f64_is_finite(bits: u64) -> bool {
    f64_exp(bits) != 0x7ff
}

/// The integer mantissa of a finite binary64 value: the fraction with the
/// implicit leading bit for normal numbers, the bare fraction for
/// subnormals.
pub open spec fn f64_mantissa(bits: u64) -> u64 {
    if f64_exp(bits) == 0 {
        f64_frac(bits)
    } else {
        (f64_frac(bits) + 0x10_0000_0000_0000) as u64
    }
}

/// The binary exponent that scales the integer mantissa of a finite
/// binary64 value.
pub open spec fn f64_bexp(bits: u64) -> int {
    if f64_exp(bits) == 0 {
        -1074
    } else {
        f64_exp(bits) - 1075
    }
}

/// The exact integer a binary64 pattern denotes, if it denotes one: the
/// value must be finite and without fractional part.  Both zeros denote 0.
pub open spec fn f64_integer(bits: u64) -> Option<int> {
    if !f64_is_finite(bits) {
        None
    } else {
        match shifted_int(f64_mantissa(bits), f64_bexp(bits)) {
            None => None,
            Some(v) => Some(
                if f64_is_neg(bits) {
                    -v
                } else {
                    v
                },
            ),
        }
    }
}

/// The sign bit of a binary32 pattern.
pub open spec fn f32_is_neg(bits: u32) -> bool {
    bits >> 31 == 1
}

/// The 8-bit exponent field of a binary32 pattern.
pub open spec fn f32_exp(bits: u32) -> u32 {
    (bits >> 23) & 0xff
}

/// The 23-bit fraction field of a binary32 pattern.
pub open spec fn f32_frac(bits: u32) -> u32 {
    bits & 0x7f_ffff
}

/// A binary32 pattern is finite unless its exponent field is all ones.
pub open spec fn f32_is_finite(bits: u32) -> bool {
    f32_exp(bits) != 0xff
}

/// The integer mantissa of a finite binary32 value.
pub open spec fn f32_mantissa(bits: u32) -> u64 {
    if f32_exp(bits) == 0 {
        f32_frac(bits) as u64
    } else {
        (f32_frac(bits) + 0x80_0000) as u64
    }
}

/// The binary exponent that scales the integer mantissa of a finite
/// binary32 value.
pub open spec fn f32_bexp(bits: u32) -> int {
    if f32_exp(bits) == 0 {
        -149
    } else {
        f32_exp(bits) - 150
    }
}

/// The exact integer a binary32 pattern denotes, if it denotes one.
pub open spec fn f32_integer(bits: u32) -> Option<int> {
    if !f32_is_finite(bits) {
        None
    } else {
        match shifted_int(f32_mantissa(bits), f32_bexp(bits)) {
            None => None,
            Some(v) => Some(
                if f32_is_neg(bits) {
                    -v
                } else {
                    v
                },
            ),
        }
    }
}

/// An exact integer clipped to the unsigned 64-bit range; out of range is a
/// coercion failure, not truncation.
pub open spec fn int_in_u64(v: Option<int>) -> Option<u64> {
    match v {
        Some(v) => if 0 <= v <= u64::MAX {
            Some(v as u64)
        } else {
            None
        },
        None => None,
    }
}

/// An exact integer clipped to the signed 64-bit range.
pub open spec fn int_in_i64(v: Option<int>) -> Option<i64> {
    match v {
        Some(v) => if i64::MIN <= v <= i64::MAX {
            Some(v as i64)
        } else {
            None
        },
        None => None,
    }
}

/// An unsigned rational converts to an integer only when its denominator
/// is nonzero and divides its numerator exactly.
pub open spec fn spec_urational_quot(r: URational) -> Option<u64> {
    if r.den != 0 && r.num % r.den == 0 {
        Some((r.num / r.den) as u64)
    } else {
        None
    }
}

/// The exact quotient of a signed rational, by the same rule: nonzero
/// denominator, exact divisibility of the magnitudes, the signs combined.
pub open spec fn spec_srational_quot(r: SRational) -> Option<int> {
    let a = abs(r.num as int) as int;
    let b = abs(r.den as int) as int;
    if b != 0 && a % b == 0 {
        Some(
            if (r.num < 0) != (r.den < 0) {
                -(a / b)
            } else {
                a / b
            },
        )
    } else {
        None
    }
}

/// What scalar `i` of a value yields when coerced to an unsigned 64-bit
/// integer: unsigned sources widen, signed sources must be non-negative,
/// rationals must divide exactly to a non-negative quotient, and
/// floating-point sources must be finite, exact integers in range.
pub open spec fn spec_elem_u64(d: TagDataView, i: int) -> Option<u64> {
    match d {
        TagDataView::Byte(s) => Some(s[i] as u64),
        TagDataView::Ascii(s) => Some(s[i] as u64),
        TagDataView::Short(s) => Some(s[i] as u64),
        TagDataView::Long(s) => Some(s[i] as u64),
        TagDataView::Rational(s) => spec_urational_quot(s[i]),
        TagDataView::SByte(s) => if s[i] >= 0 {
            Some(s[i] as u64)
        } else {
            None
        },
        TagDataView::Undefined(s) => Some(s[i] as u64),
        TagDataView::SShort(s) => if s[i] >= 0 {
            Some(s[i] as u64)
        } else {
            None
        },
        TagDataView::SLong(s) => if s[i] >= 0 {
            Some(s[i] as u64)
        } else {
            None
        },
        TagDataView::SRational(s) => int_in_u64(spec_srational_quot(s[i])),
        TagDataView::Float(s) => int_in_u64(f32_integer(s[i])),
        TagDataView::Double(s) => int_in_u64(f64_integer(s[i])),
        TagDataView::IFD(s) => Some(s[i] as u64),
        TagDataView::Long8(s) => Some(s[i]),
        TagDataView::SLong8(s) => if s[i] >= 0 {
            Some(s[i] as u64)
        } else {
            None
        },
        TagDataView::IFD8(s) => Some(s[i]),
    }
}

/// What scalar `i` of a value yields when coerced to a signed 64-bit
/// integer.
pub open spec fn spec_elem_i64(d: TagDataView, i: int) -> Option<i64> {
    match d {
        TagDataView::Byte(s) => Some(s[i] as i64),
        TagDataView::Ascii(s) => Some(s[i] as i64),
        TagDataView::Short(s) => Some(s[i] as i64),
        TagDataView::Long(s) => Some(s[i] as i64),
        TagDataView::Rational(s) => match spec_urational_quot(s[i]) {
            Some(q) => Some(q as i64),
            None => None,
        },
        TagDataView::SByte(s) => Some(s[i] as i64),
        TagDataView::Undefined(s) => Some(s[i] as i64),
        TagDataView::SShort(s) => Some(s[i] as i64),
        TagDataView::SLong(s) => Some(s[i] as i64),
        TagDataView::SRational(s) => int_in_i64(spec_srational_quot(s[i])),
        TagDataView::Float(s) => int_in_i64(f32_integer(s[i])),
        TagDataView::Double(s) => int_in_i64(f64_integer(s[i])),
        TagDataView::IFD(s) => Some(s[i] as i64),
        TagDataView::Long8(s) => if s[i] <= i64::MAX as u64 {
            Some(s[i] as i64)
        } else {
            None
        },
        TagDataView::SLong8(s) => Some(s[i]),
        TagDataView::IFD8(s) => if s[i] <= i64::MAX as u64 {
            Some(s[i] as i64)
        } else {
            None
        },
    }
}

/// The scalar coercion of a whole value to one unsigned integer: it must
/// hold exactly one element, and that element must convert.
pub open spec fn spec_as_u64_single(d: TagDataView) -> Result<u64, TiffError> {
    if elem_count(d) != 1 {
        Err(TiffError::IncompatibleTagDataKind)
    } else {
        match spec_elem_u64(d, 0) {
            Some(v) => Ok(v),
            None => Err(TiffError::IncompatibleTagDataKind),
        }
    }
}

/// The scalar coercion of a whole value to one signed integer.
pub open spec fn spec_as_i64_single(d: TagDataView) -> Result<i64, TiffError> {
    if elem_count(d) != 1 {
        Err(TiffError::IncompatibleTagDataKind)
    } else {
        match spec_elem_i64(d, 0) {
            Some(v) => Ok(v),
            None => Err(TiffError::IncompatibleTagDataKind),
        }
    }
}

/// The element-wise coercion of a whole value to unsigned integers: any
/// length, every element must convert.
pub open spec fn spec_as_u64_array(d: TagDataView) -> Result<Seq<u64>, TiffError> {
    if forall|i: int| 0 <= i < elem_count(d) ==> spec_elem_u64(d, i) is Some {
        Ok(Seq::new(elem_count(d), |i: int| spec_elem_u64(d, i)->0))
    } else {
        Err(TiffError::IncompatibleTagDataKind)
    }
}

/// The element-wise coercion of a whole value to signed integers.
pub open spec fn spec_as_i64_array(d: TagDataView) -> Result<Seq<i64>, TiffError> {
    if forall|i: int| 0 <= i < elem_count(d) ==> spec_elem_i64(d, i) is Some {
        Ok(Seq::new(elem_count(d), |i: int| spec_elem_i64(d, i)->0))
    } else {
        Err(TiffError::IncompatibleTagDataKind)
    }
}

/// The magnitude `m * 2^sh`, when it fits in 64 bits.
fn mag_shift_up(m: u64, sh: u64) -> (r: Option<u64>)
    ensures
        ({
            let v = (m as int) * (pow2(sh as nat) as int);
            if v <= u64::MAX {
                r == Some(v as u64)
            } else {
                r is None
            }
        }),
{
    proof {
        lemma_pow2_pos(sh as nat);
    }
    if m == 0 {
        proof {
            assert((m as int) * (pow2(sh as nat) as int) == 0) by (nonlinear_arith)
                requires
                    m == 0,
            ;
        }
        Some(0)
    } else if sh > 63 {
        proof {
            lemma2_to64();
            if sh > 64 {
                lemma_pow2_strictly_increases(64, sh as nat);
            }
            lemma_mul_inequality(1, m as int, pow2(sh as nat) as int);
        }
        None
    } else {
        proof {
            lemma_u64_mul_pow2_le_max_iff_max_shr(m, sh, u64::MAX);
        }
        if m <= u64::MAX >> sh {
            proof {
                lemma_u64_shl_is_mul(m, sh);
            }
            Some(m << sh)
        } else {
            None
        }
    }
}

/// The magnitude `m / 2^sh`, when the division is exact; `None` marks a
/// fractional part.
fn mag_shift_down(m: u64, sh: u64) -> (r: Option<u64>)
    requires
        sh >= 1,
    ensures
        (m as int) % (pow2(sh as nat) as int) == 0 ==> r == Some(
            ((m as int) / (pow2(sh as nat) as int)) as u64,
        ),
        (m as int) % (pow2(sh as nat) as int) != 0 ==> r is None,
        0 <= (m as int) / (pow2(sh as nat) as int) <= m,
{
    proof {
        lemma_pow2_pos(sh as nat);
        lemma_div_pos_is_pos(m as int, pow2(sh as nat) as int);
        lemma_div_nonincreasing(m as int, pow2(sh as nat) as int);
    }
    if sh > 63 {
        // The divisor exceeds any 64-bit value: only zero divides evenly.
        proof {
            lemma2_to64();
            if sh > 64 {
                lemma_pow2_strictly_increases(64, sh as nat);
            }
            lemma_small_mod(m as nat, pow2(sh as nat));
        }
        if m == 0 {
            Some(0)
        } else {
            None
        }
    } else {
        proof {
            lemma_u64_pow2_no_overflow(sh as nat);
            lemma_u64_shl_is_mul(1, sh);
        }
        let mask = (1u64 << sh) - 1;
        proof {
            assert(mask == low_bits_mask(sh as nat));
            lemma_u64_low_bits_mask_is_mod(m, sh as nat);
            lemma_u64_shr_is_div(m, sh);
        }
        if m & mask == 0 {
            Some(m >> sh)
        } else {
            None
        }
    }
}

/// The unsigned 64-bit integer a binary64 pattern coerces to, if any.
fn f64_bits_to_u64(bits: u64) -> (r: Option<u64>)
    ensures
        r == int_in_u64(f64_integer(bits)),
{
    let exp = (bits >> 52) & 0x7ff;
    let frac = bits & 0xf_ffff_ffff_ffff;
    let neg = bits >> 63 == 1;
    if exp == 0x7ff {
        return None;
    }
    proof {
        assert(frac <= 0xf_ffff_ffff_ffff) by (bit_vector)
            requires
                frac == bits & 0xf_ffff_ffff_ffff,
        ;
    }
    let mag = if exp == 0 {
        mag_shift_down(frac, 1074)
    } else if exp >= 1075 {
        mag_shift_up(frac + 0x10_0000_0000_0000, exp - 1075)
    } else {
        mag_shift_down(frac + 0x10_0000_0000_0000, 1075 - exp)
    };
    match mag {
        None => None,
        Some(v) => {
            if neg {
                if v == 0 {
                    Some(0)
                } else {
                    None
                }
            } else {
                Some(v)
            }
        },
    }
}

/// The signed 64-bit integer a binary64 pattern coerces to, if any.
fn f64_bits_to_i64(bits: u64) -> (r: Option<i64>)
    ensures
        r == int_in_i64(f64_integer(bits)),
{
    let exp = (bits >> 52) & 0x7ff;
    let frac = bits & 0xf_ffff_ffff_ffff;
    let neg = bits >> 63 == 1;
    if exp == 0x7ff {
        return None;
    }
    proof {
        assert(frac <= 0xf_ffff_ffff_ffff) by (bit_vector)
            requires
                frac == bits & 0xf_ffff_ffff_ffff,
        ;
    }
    let mag = if exp == 0 {
        mag_shift_down(frac, 1074)
    } else if exp >= 1075 {
        mag_shift_up(frac + 0x10_0000_0000_0000, exp - 1075)
    } else {
        mag_shift_down(frac + 0x10_0000_0000_0000, 1075 - exp)
    };
    match mag {
        None => None,
        Some(v) => {
            if neg {
                if v == 0x8000_0000_0000_0000 {
                    Some(i64::MIN)
                } else if v < 0x8000_0000_0000_0000 {
                    Some(-(v as i64))
                } else {
                    None
                }
            } else {
                if v <= 0x7fff_ffff_ffff_ffff {
                    Some(v as i64)
                } else {
                    None
                }
            }
        },
    }
}

/// The unsigned 64-bit integer a binary32 pattern coerces to, if any.
fn f32_bits_to_u64(bits: u32) -> (r: Option<u64>)
    ensures
        r == int_in_u64(f32_integer(bits)),
{
    let exp = (bits >> 23) & 0xff;
    let frac = bits & 0x7f_ffff;
    let neg = bits >> 31 == 1;
    if exp == 0xff {
        return None;
    }
    proof {
        assert(frac <= 0x7f_ffff) by (bit_vector)
            requires
                frac == bits & 0x7f_ffff,
        ;
    }
    let mag = if exp == 0 {
        mag_shift_down(frac as u64, 149)
    } else if exp >= 150 {
        mag_shift_up(frac as u64 + 0x80_0000, (exp - 150) as u64)
    } else {
        mag_shift_down(frac as u64 + 0x80_0000, (150 - exp) as u64)
    };
    match mag {
        None => None,
        Some(v) => {
            if neg {
                if v == 0 {
                    Some(0)
                } else {
                    None
                }
            } else {
                Some(v)
            }
        },
    }
}

/// The signed 64-bit integer a binary32 pattern coerces to, if any.
fn f32_bits_to_i64(bits: u32) -> (r: Option<i64>)
    ensures
        r == int_in_i64(f32_integer(bits)),
{
    let exp = (bits >> 23) & 0xff;
    let frac = bits & 0x7f_ffff;
    let neg = bits >> 31 == 1;
    if exp == 0xff {
        return None;
    }
    proof {
        assert(frac <= 0x7f_ffff) by (bit_vector)
            requires
                frac == bits & 0x7f_ffff,
        ;
    }
    let mag = if exp == 0 {
        mag_shift_down(frac as u64, 149)
    } else if exp >= 150 {
        mag_shift_up(frac as u64 + 0x80_0000, (exp - 150) as u64)
    } else {
        mag_shift_down(frac as u64 + 0x80_0000, (150 - exp) as u64)
    };
    match mag {
        None => None,
        Some(v) => {
            if neg {
                if v == 0x8000_0000_0000_0000 {
                    Some(i64::MIN)
                } else if v < 0x8000_0000_0000_0000 {
                    Some(-(v as i64))
                } else {
                    None
                }
            } else {
                if v <= 0x7fff_ffff_ffff_ffff {
                    Some(v as i64)
                } else {
                    None
                }
            }
        },
    }
}

/// The exact non-negative quotient of an unsigned rational, if any.
fn urational_quot(r: URational) -> (q: Option<u64>)
    ensures
        q == spec_urational_quot(r),
{
    if r.den == 0 {
        None
    } else if r.num % r.den == 0 {
        Some((r.num / r.den) as u64)
    } else {
        None
    }
}

/// The magnitudes and sign of a signed rational's exact quotient, if any.
fn srational_quot(r: SRational) -> (q: Option<(u64, bool)>)
    ensures
        match spec_srational_quot(r) {
            Some(v) => q matches Some(p) && p.0 == abs(v) && (p.1 <==> v < 0),
            None => q is None,
        },
{
    let a: u64 = if r.num >= 0 {
        r.num as u64
    } else {
        (-(r.num as i64)) as u64
    };
    let b: u64 = if r.den >= 0 {
        r.den as u64
    } else {
        (-(r.den as i64)) as u64
    };
    if b == 0 {
        None
    } else if a % b != 0 {
        None
    } else {
        let q = a / b;
        let neg = (r.num < 0) != (r.den < 0);
        Some((q, neg && q > 0))
    }
}

/// The unsigned 64-bit integer a signed rational coerces to, if any.
fn srational_to_u64(r: SRational) -> (q: Option<u64>)
    ensures
        q == int_in_u64(spec_srational_quot(r)),
{
    match srational_quot(r) {
        None => None,
        Some((mag, neg)) => {
            if neg {
                None
            } else {
                Some(mag)
            }
        },
    }
}

/// The signed 64-bit integer a signed rational coerces to, if any.  The
/// quotient of two 32-bit halves always fits.
fn srational_to_i64(r: SRational) -> (q: Option<i64>)
    ensures
        q == int_in_i64(spec_srational_quot(r)),
{
    match srational_quot(r) {
        None => None,
        Some((mag, neg)) => {
            if neg {
                Some(-(mag as i64))
            } else {
                Some(mag as i64)
            }
        },
    }
}

impl TagData {
    /// How many scalars this value holds.
    pub fn len(&self) -> (r: usize)
        ensures
            r == elem_count(self@),
    {
        match self {
            TagData::Byte(v) => v.len(),
            TagData::Ascii(v) => v.len(),
            TagData::Short(v) => v.len(),
            TagData::Long(v) => v.len(),
            TagData::Rational(v) => v.len(),
            TagData::SByte(v) => v.len(),
            TagData::Undefined(v) => v.len(),
            TagData::SShort(v) => v.len(),
            TagData::SLong(v) => v.len(),
            TagData::SRational(v) => v.len(),
            TagData::Float(v) => v.len(),
            TagData::Double(v) => v.len(),
            TagData::IFD(v) => v.len(),
            TagData::Long8(v) => v.len(),
            TagData::SLong8(v) => v.len(),
            TagData::IFD8(v) => v.len(),
        }
    }

    /// Scalar `i` coerced to an unsigned 64-bit integer, if the coercion
    /// rules allow it.
    fn elem_u64(&self, i: usize) -> (r: Option<u64>)
        requires
            i < elem_count(self@),
        ensures
            r == spec_elem_u64(self@, i as int),
    {
        match self {
            TagData::Byte(v) => Some(v[i] as u64),
            TagData::Ascii(v) => Some(v[i] as u64),
            TagData::Short(v) => Some(v[i] as u64),
            TagData::Long(v) => Some(v[i] as u64),
            TagData::Rational(v) => urational_quot(v[i]),
            TagData::SByte(v) => if v[i] >= 0 {
                Some(v[i] as u64)
            } else {
                None
            },
            TagData::Undefined(v) => Some(v[i] as u64),
            TagData::SShort(v) => if v[i] >= 0 {
                Some(v[i] as u64)
            } else {
                None
            },
            TagData::SLong(v) => if v[i] >= 0 {
                Some(v[i] as u64)
            } else {
                None
            },
            TagData::SRational(v) => srational_to_u64(v[i]),
            TagData::Float(v) => f32_bits_to_u64(v[i]),
            TagData::Double(v) => f64_bits_to_u64(v[i]),
            TagData::IFD(v) => Some(v[i] as u64),
            TagData::Long8(v) => Some(v[i]),
            TagData::SLong8(v) => if v[i] >= 0 {
                Some(v[i] as u64)
            } else {
                None
            },
            TagData::IFD8(v) => Some(v[i]),
        }
    }

    /// Scalar `i` coerced to a signed 64-bit integer, if the coercion
    /// rules allow it.
    fn elem_i64(&self, i: usize) -> (r: Option<i64>)
        requires
            i < elem_count(self@),
        ensures
            r == spec_elem_i64(self@, i as int),
    {
        match self {
            TagData::Byte(v) => Some(v[i] as i64),
            TagData::Ascii(v) => Some(v[i] as i64),
            TagData::Short(v) => Some(v[i] as i64),
            TagData::Long(v) => Some(v[i] as i64),
            TagData::Rational(v) => match urational_quot(v[i]) {
                Some(q) => Some(q as i64),
                None => None,
            },
            TagData::SByte(v) => Some(v[i] as i64),
            TagData::Undefined(v) => Some(v[i] as i64),
            TagData::SShort(v) => Some(v[i] as i64),
            TagData::SLong(v) => Some(v[i] as i64),
            TagData::SRational(v) => srational_to_i64(v[i]),
            TagData::Float(v) => f32_bits_to_i64(v[i]),
            TagData::Double(v) => f64_bits_to_i64(v[i]),
            TagData::IFD(v) => Some(v[i] as i64),
            TagData::Long8(v) => if v[i] <= 0x7fff_ffff_ffff_ffff {
                Some(v[i] as i64)
            } else {
                None
            },
            TagData::SLong8(v) => Some(v[i]),
            TagData::IFD8(v) => if v[i] <= 0x7fff_ffff_ffff_ffff {
                Some(v[i] as i64)
            } else {
                None
            },
        }
    }

    /// The single scalar of this value as an unsigned 64-bit integer; the
    /// value must hold exactly one element and it must convert.
    pub fn as_unsigned_integer(&self) -> (r: Result<u64, TiffError>)
        ensures
            r == spec_as_u64_single(self@),
    {
        if self.len() != 1 {
            return Err(TiffError::IncompatibleTagDataKind);
        }
        match self.elem_u64(0) {
            Some(v) => Ok(v),
            None => Err(TiffError::IncompatibleTagDataKind),
        }
    }

    /// The single scalar of this value as a signed 64-bit integer.
    pub fn as_signed_integer(&self) -> (r: Result<i64, TiffError>)
        ensures
            r == spec_as_i64_single(self@),
    {
        if self.len() != 1 {
            return Err(TiffError::IncompatibleTagDataKind);
        }
        match self.elem_i64(0) {
            Some(v) => Ok(v),
            None => Err(TiffError::IncompatibleTagDataKind),
        }
    }

    /// Every scalar of this value as an unsigned 64-bit integer; any
    /// length, but every element must convert.
    pub fn as_unsigned_integers(&self) -> (r: Result<Vec<u64>, TiffError>)
        ensures
            match spec_as_u64_array(self@) {
                Ok(s) => r matches Ok(v) && v@ == s,
                Err(e) => r == Err::<Vec<u64>, TiffError>(e),
            },
    {
        let n = self.len();
        let mut out: Vec<u64> = Vec::new();
        let mut i: usize = 0;
        while i < n
            invariant
                i <= n,
                n == elem_count(self@),
                forall|j: int| 0 <= j < i ==> spec_elem_u64(self@, j) is Some,
                out@ == Seq::new(i as nat, |j: int| spec_elem_u64(self@, j)->0),
            decreases n - i,
        {
            match self.elem_u64(i) {
                Some(v) => {
                    out.push(v);
                    proof {
                        assert(out@ =~= Seq::new((i + 1) as nat, |j: int| spec_elem_u64(self@, j)->0));
                    }
                },
                None => {
                    return Err(TiffError::IncompatibleTagDataKind);
                },
            }
            i = i + 1;
        }
        proof {
            assert(out@ =~= Seq::new(elem_count(self@), |j: int| spec_elem_u64(self@, j)->0));
        }
        Ok(out)
    }

    /// Every scalar of this value as a signed 64-bit integer.
    pub fn as_signed_integers(&self) -> (r: Result<Vec<i64>, TiffError>)
        ensures
            match spec_as_i64_array(self@) {
                Ok(s) => r matches Ok(v) && v@ == s,
                Err(e) => r == Err::<Vec<i64>, TiffError>(e),
            },
    {
        let n = self.len();
        let mut out: Vec<i64> = Vec::new();
        let mut i: usize = 0;
        while i < n
            invariant
                i <= n,
                n == elem_count(self@),
                forall|j: int| 0 <= j < i ==> spec_elem_i64(self@, j) is Some,
                out@ == Seq::new(i as nat, |j: int| spec_elem_i64(self@, j)->0),
            decreases n - i,
        {
            match self.elem_i64(i) {
                Some(v) => {
                    out.push(v);
                    proof {
                        assert(out@ =~= Seq::new((i + 1) as nat, |j: int| spec_elem_i64(self@, j)->0));
                    }
                },
                None => {
                    return Err(TiffError::IncompatibleTagDataKind);
                },
            }
            i = i + 1;
        }
        proof {
            assert(out@ =~= Seq::new(elem_count(self@), |j: int| spec_elem_i64(self@, j)->0));
        }
        Ok(out)
    }
}

} // verus!
