//! The recognized compression schemes.
//!
//! The reader only identifies the scheme a directory names; it never
//! decompresses pixel data.

use vstd::prelude::*;

verus! {

/// A compression scheme a directory can declare.
#[derive(Clone, Copy, Debug, PartialEq, Eq, Structural)]
pub enum CompressionScheme {
    /// Code 1: no compression.
    NoCompression,
    /// Code 5: Lempel-Ziv-Welch.
    LZW,
    /// Code 8: zlib deflate.
    AdobeDeflate,
    /// Code 32773: PackBits run-length coding.
    PackBits,
    /// Code 32946: the older deflate code.
    Deflate,
}

/// The numeric code of each recognized scheme.
pub open spec fn scheme_number(s: CompressionScheme) -> u64 {
    match s {
        CompressionScheme::NoCompression => 1,
        CompressionScheme::LZW => 5,
        CompressionScheme::AdobeDeflate => 8,
        CompressionScheme::PackBits => 32773,
        CompressionScheme::Deflate => 32946,
    }
}

/// The scheme a numeric code names, if it is recognized.
pub open spec fn spec_scheme_from(n: u64) -> Option<CompressionScheme> {
    match n {
        1 => Some(CompressionScheme::NoCompression),
        5 => Some(CompressionScheme::LZW),
        8 => Some(CompressionScheme::AdobeDeflate),
        32773 => Some(CompressionScheme::PackBits),
        32946 => Some(CompressionScheme::Deflate),
        _ => None,
    }
}

impl CompressionScheme {
    /// The numeric code of this scheme.
    pub fn to_number(&self) -> (r: u64)
        ensures
            r == scheme_number(*self),
    {
        match self {
            CompressionScheme::NoCompression => 1,
            CompressionScheme::LZW => 5,
            CompressionScheme::AdobeDeflate => 8,
            CompressionScheme::PackBits => 32773,
            CompressionScheme::Deflate => 32946,
        }
    }

    /// The scheme a numeric code names; an unrecognized code is `None`.
    pub fn from_number(value: u64) -> (r: Option<CompressionScheme>)
        ensures
            r == spec_scheme_from(value),
    {
        match value {
            1 => Some(CompressionScheme::NoCompression),
            5 => Some(CompressionScheme::LZW),
            8 => Some(CompressionScheme::AdobeDeflate),
            32773 => Some(CompressionScheme::PackBits),
            32946 => Some(CompressionScheme::Deflate),
            _ => None,
        }
    }
}

} // verus!
