//! Classification of 16-bit numeric tag identifiers.
//!
//! A numeric identifier belongs to one of three namespaces: the Baseline
//! tags of TIFF 6.0, its Extension tags, or the private namespace that every
//! other value falls back to.  The two tables are fixed; lookup is total.

use vstd::prelude::*;

use crate::error::TiffError;

verus! {

/// The Baseline tags of TIFF 6.0.
#[derive(Clone, Copy, Debug, PartialEq, Eq, Structural)]
pub enum Baseline {
    NewSubfileType,
    SubfileType,
    ImageWidth,
    ImageLength,
    BitsPerSample,
    Compression,
    PhotometricInterpretation,
    Threshholding,
    CellWidth,
    CellLength,
    FillOrder,
    ImageDescription,
    Make,
    Model,
    StripOffsets,
    Orientation,
    SamplesPerPixel,
    RowsPerStrip,
    StripByteCounts,
    MinSampleValue,
    MaxSampleValue,
    XResolution,
    YResolution,
    PlanarConfiguration,
    FreeOffsets,
    FreeByteCounts,
    GrayResponseUnit,
    GrayResponseCurve,
    ResolutionUnit,
    Software,
    DateTime,
    Artist,
    HostComputer,
    ColorMap,
    ExtraSamples,
    Copyright,
}

/// The Extension tags of TIFF 6.0.
#[derive(Clone, Copy, Debug, PartialEq, Eq, Structural)]
pub enum Extension {
    DocumentName,
    PageName,
    XPosition,
    YPosition,
    T4Options,
    T6Options,
    PageNumber,
    TransferFunction,
    Predictor,
    WhitePoint,
    PrimaryChromaticities,
    HalftoneHints,
    TileWidth,
    TileLength,
    TileOffsets,
    TileByteCounts,
    BadFaxLines,
    CleanFaxData,
    ConsecutiveBadFaxLines,
    SubIFDs,
    InkSet,
    InkNames,
    NumberOfInks,
    DotRange,
    TargetPrinter,
    SampleFormat,
    SMinSampleValue,
    SMaxSampleValue,
    TransferRange,
    ClipPath,
    XClipPathUnits,
    YClipPathUnits,
    Indexed,
    JPEGTables,
    OPIProxy,
    GlobalParametersIFD,
    ProfileType,
    FaxProfile,
    CodingMethods,
    VersionYear,
    ModeNumber,
    Decode,
    DefaultImageColor,
    JPEGProc,
    JPEGInterchangeFormat,
    JPEGInterchangeFormatLength,
    JPEGRestartInterval,
    JPEGLosslessPredictors,
    JPEGPointTransforms,
    JPEGQTables,
    JPEGDCTables,
    JPEGACTables,
    YCbCrCoefficients,
    YCbCrSubSampling,
    YCbCrPositioning,
    ReferenceBlackWhite,
    StripRowCounts,
    XMP,
    ImageID,
    ImageLayer,
}

/// The numeric identifier of each Baseline tag.
pub open spec fn baseline_id(t: Baseline) -> u16 {
    match t {
        Baseline::NewSubfileType => 0x00FE,
        Baseline::SubfileType => 0x00FF,
        Baseline::ImageWidth => 0x0100,
        Baseline::ImageLength => 0x0101,
        Baseline::BitsPerSample => 0x0102,
        Baseline::Compression => 0x0103,
        Baseline::PhotometricInterpretation => 0x0106,
        Baseline::Threshholding => 0x0107,
        Baseline::CellWidth => 0x0108,
        Baseline::CellLength => 0x0109,
        Baseline::FillOrder => 0x010A,
        Baseline::ImageDescription => 0x010E,
        Baseline::Make => 0x010F,
        Baseline::Model => 0x0110,
        Baseline::StripOffsets => 0x0111,
        Baseline::Orientation => 0x0112,
        Baseline::SamplesPerPixel => 0x0115,
        Baseline::RowsPerStrip => 0x0116,
        Baseline::StripByteCounts => 0x0117,
        Baseline::MinSampleValue => 0x0118,
        Baseline::MaxSampleValue => 0x0119,
        Baseline::XResolution => 0x011A,
        Baseline::YResolution => 0x011B,
        Baseline::PlanarConfiguration => 0x011C,
        Baseline::FreeOffsets => 0x0120,
        Baseline::FreeByteCounts => 0x0121,
        Baseline::GrayResponseUnit => 0x0122,
        Baseline::GrayResponseCurve => 0x0123,
        Baseline::ResolutionUnit => 0x0128,
        Baseline::Software => 0x0131,
        Baseline::DateTime => 0x0132,
        Baseline::Artist => 0x013B,
        Baseline::HostComputer => 0x013C,
        Baseline::ColorMap => 0x0140,
        Baseline::ExtraSamples => 0x0152,
        Baseline::Copyright => 0x8298,
    }
}

/// The numeric identifier of each Extension tag.
pub open spec fn extension_id(t: Extension) -> u16 {
    match t {
        Extension::DocumentName => 0x010D,
        Extension::PageName => 0x011D,
        Extension::XPosition => 0x011E,
        Extension::YPosition => 0x011F,
        Extension::T4Options => 0x0124,
        Extension::T6Options => 0x0125,
        Extension::PageNumber => 0x0129,
        Extension::TransferFunction => 0x012D,
        Extension::Predictor => 0x013D,
        Extension::WhitePoint => 0x013E,
        Extension::PrimaryChromaticities => 0x013F,
        Extension::HalftoneHints => 0x0141,
        Extension::TileWidth => 0x0142,
        Extension::TileLength => 0x0143,
        Extension::TileOffsets => 0x0144,
        Extension::TileByteCounts => 0x0145,
        Extension::BadFaxLines => 0x0146,
        Extension::CleanFaxData => 0x0147,
        Extension::ConsecutiveBadFaxLines => 0x0148,
        Extension::SubIFDs => 0x014A,
        Extension::InkSet => 0x014C,
        Extension::InkNames => 0x014D,
        Extension::NumberOfInks => 0x014E,
        Extension::DotRange => 0x0150,
        Extension::TargetPrinter => 0x0151,
        Extension::SampleFormat => 0x0153,
        Extension::SMinSampleValue => 0x0154,
        Extension::SMaxSampleValue => 0x0155,
        Extension::TransferRange => 0x0156,
        Extension::ClipPath => 0x0157,
        Extension::XClipPathUnits => 0x0158,
        Extension::YClipPathUnits => 0x0159,
        Extension::Indexed => 0x015A,
        Extension::JPEGTables => 0x015B,
        Extension::OPIProxy => 0x015F,
        Extension::GlobalParametersIFD => 0x0190,
        Extension::ProfileType => 0x0191,
        Extension::FaxProfile => 0x0192,
        Extension::CodingMethods => 0x0193,
        Extension::VersionYear => 0x0194,
        Extension::ModeNumber => 0x0195,
        Extension::Decode => 0x01B1,
        Extension::DefaultImageColor => 0x01B2,
        Extension::JPEGProc => 0x0200,
        Extension::JPEGInterchangeFormat => 0x0201,
        Extension::JPEGInterchangeFormatLength => 0x0202,
        Extension::JPEGRestartInterval => 0x0203,
        Extension::JPEGLosslessPredictors => 0x0205,
        Extension::JPEGPointTransforms => 0x0206,
        Extension::JPEGQTables => 0x0207,
        Extension::JPEGDCTables => 0x0208,
        Extension::JPEGACTables => 0x0209,
        Extension::YCbCrCoefficients => 0x0211,
        Extension::YCbCrSubSampling => 0x0212,
        Extension::YCbCrPositioning => 0x0213,
        Extension::ReferenceBlackWhite => 0x0214,
        Extension::StripRowCounts => 0x022F,
        Extension::XMP => 0x02BC,
        Extension::ImageID => 0x800D,
        Extension::ImageLayer => 0x87AC,
    }
}

/// The Baseline tag a numeric identifier names, if any.
pub open spec fn spec_baseline_from(n: u16) -> Option<Baseline> {
    match n {
        0x00FE => Some(Baseline::NewSubfileType),
        0x00FF => Some(Baseline::SubfileType),
        0x0100 => Some(Baseline::ImageWidth),
        0x0101 => Some(Baseline::ImageLength),
        0x0102 => Some(Baseline::BitsPerSample),
        0x0103 => Some(Baseline::Compression),
        0x0106 => Some(Baseline::PhotometricInterpretation),
        0x0107 => Some(Baseline::Threshholding),
        0x0108 => Some(Baseline::CellWidth),
        0x0109 => Some(Baseline::CellLength),
        0x010A => Some(Baseline::FillOrder),
        0x010E => Some(Baseline::ImageDescription),
        0x010F => Some(Baseline::Make),
        0x0110 => Some(Baseline::Model),
        0x0111 => Some(Baseline::StripOffsets),
        0x0112 => Some(Baseline::Orientation),
        0x0115 => Some(Baseline::SamplesPerPixel),
        0x0116 => Some(Baseline::RowsPerStrip),
        0x0117 => Some(Baseline::StripByteCounts),
        0x0118 => Some(Baseline::MinSampleValue),
        0x0119 => Some(Baseline::MaxSampleValue),
        0x011A => Some(Baseline::XResolution),
        0x011B => Some(Baseline::YResolution),
        0x011C => Some(Baseline::PlanarConfiguration),
        0x0120 => Some(Baseline::FreeOffsets),
        0x0121 => Some(Baseline::FreeByteCounts),
        0x0122 => Some(Baseline::GrayResponseUnit),
        0x0123 => Some(Baseline::GrayResponseCurve),
        0x0128 => Some(Baseline::ResolutionUnit),
        0x0131 => Some(Baseline::Software),
        0x0132 => Some(Baseline::DateTime),
        0x013B => Some(Baseline::Artist),
        0x013C => Some(Baseline::HostComputer),
        0x0140 => Some(Baseline::ColorMap),
        0x0152 => Some(Baseline::ExtraSamples),
        0x8298 => Some(Baseline::Copyright),
        _ => None,
    }
}

/// The Extension tag a numeric identifier names, if any.
pub open spec fn spec_extension_from(n: u16) -> Option<Extension> {
    match n {
        0x010D => Some(Extension::DocumentName),
        0x011D => Some(Extension::PageName),
        0x011E => Some(Extension::XPosition),
        0x011F => Some(Extension::YPosition),
        0x0124 => Some(Extension::T4Options),
        0x0125 => Some(Extension::T6Options),
        0x0129 => Some(Extension::PageNumber),
        0x012D => Some(Extension::TransferFunction),
        0x013D => Some(Extension::Predictor),
        0x013E => Some(Extension::WhitePoint),
        0x013F => Some(Extension::PrimaryChromaticities),
        0x0141 => Some(Extension::HalftoneHints),
        0x0142 => Some(Extension::TileWidth),
        0x0143 => Some(Extension::TileLength),
        0x0144 => Some(Extension::TileOffsets),
        0x0145 => Some(Extension::TileByteCounts),
        0x0146 => Some(Extension::BadFaxLines),
        0x0147 => Some(Extension::CleanFaxData),
        0x0148 => Some(Extension::ConsecutiveBadFaxLines),
        0x014A => Some(Extension::SubIFDs),
        0x014C => Some(Extension::InkSet),
        0x014D => Some(Extension::InkNames),
        0x014E => Some(Extension::NumberOfInks),
        0x0150 => Some(Extension::DotRange),
        0x0151 => Some(Extension::TargetPrinter),
        0x0153 => Some(Extension::SampleFormat),
        0x0154 => Some(Extension::SMinSampleValue),
        0x0155 => Some(Extension::SMaxSampleValue),
        0x0156 => Some(Extension::TransferRange),
        0x0157 => Some(Extension::ClipPath),
        0x0158 => Some(Extension::XClipPathUnits),
        0x0159 => Some(Extension::YClipPathUnits),
        0x015A => Some(Extension::Indexed),
        0x015B => Some(Extension::JPEGTables),
        0x015F => Some(Extension::OPIProxy),
        0x0190 => Some(Extension::GlobalParametersIFD),
        0x0191 => Some(Extension::ProfileType),
        0x0192 => Some(Extension::FaxProfile),
        0x0193 => Some(Extension::CodingMethods),
        0x0194 => Some(Extension::VersionYear),
        0x0195 => Some(Extension::ModeNumber),
        0x01B1 => Some(Extension::Decode),
        0x01B2 => Some(Extension::DefaultImageColor),
        0x0200 => Some(Extension::JPEGProc),
        0x0201 => Some(Extension::JPEGInterchangeFormat),
        0x0202 => Some(Extension::JPEGInterchangeFormatLength),
        0x0203 => Some(Extension::JPEGRestartInterval),
        0x0205 => Some(Extension::JPEGLosslessPredictors),
        0x0206 => Some(Extension::JPEGPointTransforms),
        0x0207 => Some(Extension::JPEGQTables),
        0x0208 => Some(Extension::JPEGDCTables),
        0x0209 => Some(Extension::JPEGACTables),
        0x0211 => Some(Extension::YCbCrCoefficients),
        0x0212 => Some(Extension::YCbCrSubSampling),
        0x0213 => Some(Extension::YCbCrPositioning),
        0x0214 => Some(Extension::ReferenceBlackWhite),
        0x022F => Some(Extension::StripRowCounts),
        0x02BC => Some(Extension::XMP),
        0x800D => Some(Extension::ImageID),
        0x87AC => Some(Extension::ImageLayer),
        _ => None,
    }
}

impl Baseline {
    /// Looks the numeric identifier up in the table; identifiers
    /// outside it are not an error of the caller, merely absent.
    pub fn from_u16(n: u16) -> (r: Result<Baseline, TiffError>)
        ensures
            match spec_baseline_from(n) {
                Some(t) => r == Ok::<Baseline, TiffError>(t),
                None => r == Err::<Baseline, TiffError>(TiffError::UnknownTagId),
            },
    {
        match n {
            0x00FE => Ok(Baseline::NewSubfileType),
            0x00FF => Ok(Baseline::SubfileType),
            0x0100 => Ok(Baseline::ImageWidth),
            0x0101 => Ok(Baseline::ImageLength),
            0x0102 => Ok(Baseline::BitsPerSample),
            0x0103 => Ok(Baseline::Compression),
            0x0106 => Ok(Baseline::PhotometricInterpretation),
            0x0107 => Ok(Baseline::Threshholding),
            0x0108 => Ok(Baseline::CellWidth),
            0x0109 => Ok(Baseline::CellLength),
            0x010A => Ok(Baseline::FillOrder),
            0x010E => Ok(Baseline::ImageDescription),
            0x010F => Ok(Baseline::Make),
            0x0110 => Ok(Baseline::Model),
            0x0111 => Ok(Baseline::StripOffsets),
            0x0112 => Ok(Baseline::Orientation),
            0x0115 => Ok(Baseline::SamplesPerPixel),
            0x0116 => Ok(Baseline::RowsPerStrip),
            0x0117 => Ok(Baseline::StripByteCounts),
            0x0118 => Ok(Baseline::MinSampleValue),
            0x0119 => Ok(Baseline::MaxSampleValue),
            0x011A => Ok(Baseline::XResolution),
            0x011B => Ok(Baseline::YResolution),
            0x011C => Ok(Baseline::PlanarConfiguration),
            0x0120 => Ok(Baseline::FreeOffsets),
            0x0121 => Ok(Baseline::FreeByteCounts),
            0x0122 => Ok(Baseline::GrayResponseUnit),
            0x0123 => Ok(Baseline::GrayResponseCurve),
            0x0128 => Ok(Baseline::ResolutionUnit),
            0x0131 => Ok(Baseline::Software),
            0x0132 => Ok(Baseline::DateTime),
            0x013B => Ok(Baseline::Artist),
            0x013C => Ok(Baseline::HostComputer),
            0x0140 => Ok(Baseline::ColorMap),
            0x0152 => Ok(Baseline::ExtraSamples),
            0x8298 => Ok(Baseline::Copyright),
            _ => Err(TiffError::UnknownTagId),
        }
    }

    /// The exact numeric identifier of this tag.
    pub fn to_u16(&self) -> (r: u16)
        ensures
            r == baseline_id(*self),
    {
        match self {
            Baseline::NewSubfileType => 0x00FE,
            Baseline::SubfileType => 0x00FF,
            Baseline::ImageWidth => 0x0100,
            Baseline::ImageLength => 0x0101,
            Baseline::BitsPerSample => 0x0102,
            Baseline::Compression => 0x0103,
            Baseline::PhotometricInterpretation => 0x0106,
            Baseline::Threshholding => 0x0107,
            Baseline::CellWidth => 0x0108,
            Baseline::CellLength => 0x0109,
            Baseline::FillOrder => 0x010A,
            Baseline::ImageDescription => 0x010E,
            Baseline::Make => 0x010F,
            Baseline::Model => 0x0110,
            Baseline::StripOffsets => 0x0111,
            Baseline::Orientation => 0x0112,
            Baseline::SamplesPerPixel => 0x0115,
            Baseline::RowsPerStrip => 0x0116,
            Baseline::StripByteCounts => 0x0117,
            Baseline::MinSampleValue => 0x0118,
            Baseline::MaxSampleValue => 0x0119,
            Baseline::XResolution => 0x011A,
            Baseline::YResolution => 0x011B,
            Baseline::PlanarConfiguration => 0x011C,
            Baseline::FreeOffsets => 0x0120,
            Baseline::FreeByteCounts => 0x0121,
            Baseline::GrayResponseUnit => 0x0122,
            Baseline::GrayResponseCurve => 0x0123,
            Baseline::ResolutionUnit => 0x0128,
            Baseline::Software => 0x0131,
            Baseline::DateTime => 0x0132,
            Baseline::Artist => 0x013B,
            Baseline::HostComputer => 0x013C,
            Baseline::ColorMap => 0x0140,
            Baseline::ExtraSamples => 0x0152,
            Baseline::Copyright => 0x8298,
        }
    }
}

impl Extension {
    /// Looks the numeric identifier up in the table; identifiers
    /// outside it are not an error of the caller, merely absent.
    pub fn from_u16(n: u16) -> (r: Result<Extension, TiffError>)
        ensures
            match spec_extension_from(n) {
                Some(t) => r == Ok::<Extension, TiffError>(t),
                None => r == Err::<Extension, TiffError>(TiffError::UnknownTagId),
            },
    {
        match n {
            0x010D => Ok(Extension::DocumentName),
            0x011D => Ok(Extension::PageName),
            0x011E => Ok(Extension::XPosition),
            0x011F => Ok(Extension::YPosition),
            0x0124 => Ok(Extension::T4Options),
            0x0125 => Ok(Extension::T6Options),
            0x0129 => Ok(Extension::PageNumber),
            0x012D => Ok(Extension::TransferFunction),
            0x013D => Ok(Extension::Predictor),
            0x013E => Ok(Extension::WhitePoint),
            0x013F => Ok(Extension::PrimaryChromaticities),
            0x0141 => Ok(Extension::HalftoneHints),
            0x0142 => Ok(Extension::TileWidth),
            0x0143 => Ok(Extension::TileLength),
            0x0144 => Ok(Extension::TileOffsets),
            0x0145 => Ok(Extension::TileByteCounts),
            0x0146 => Ok(Extension::BadFaxLines),
            0x0147 => Ok(Extension::CleanFaxData),
            0x0148 => Ok(Extension::ConsecutiveBadFaxLines),
            0x014A => Ok(Extension::SubIFDs),
            0x014C => Ok(Extension::InkSet),
            0x014D => Ok(Extension::InkNames),
            0x014E => Ok(Extension::NumberOfInks),
            0x0150 => Ok(Extension::DotRange),
            0x0151 => Ok(Extension::TargetPrinter),
            0x0153 => Ok(Extension::SampleFormat),
            0x0154 => Ok(Extension::SMinSampleValue),
            0x0155 => Ok(Extension::SMaxSampleValue),
            0x0156 => Ok(Extension::TransferRange),
            0x0157 => Ok(Extension::ClipPath),
            0x0158 => Ok(Extension::XClipPathUnits),
            0x0159 => Ok(Extension::YClipPathUnits),
            0x015A => Ok(Extension::Indexed),
            0x015B => Ok(Extension::JPEGTables),
            0x015F => Ok(Extension::OPIProxy),
            0x0190 => Ok(Extension::GlobalParametersIFD),
            0x0191 => Ok(Extension::ProfileType),
            0x0192 => Ok(Extension::FaxProfile),
            0x0193 => Ok(Extension::CodingMethods),
            0x0194 => Ok(Extension::VersionYear),
            0x0195 => Ok(Extension::ModeNumber),
            0x01B1 => Ok(Extension::Decode),
            0x01B2 => Ok(Extension::DefaultImageColor),
            0x0200 => Ok(Extension::JPEGProc),
            0x0201 => Ok(Extension::JPEGInterchangeFormat),
            0x0202 => Ok(Extension::JPEGInterchangeFormatLength),
            0x0203 => Ok(Extension::JPEGRestartInterval),
            0x0205 => Ok(Extension::JPEGLosslessPredictors),
            0x0206 => Ok(Extension::JPEGPointTransforms),
            0x0207 => Ok(Extension::JPEGQTables),
            0x0208 => Ok(Extension::JPEGDCTables),
            0x0209 => Ok(Extension::JPEGACTables),
            0x0211 => Ok(Extension::YCbCrCoefficients),
            0x0212 => Ok(Extension::YCbCrSubSampling),
            0x0213 => Ok(Extension::YCbCrPositioning),
            0x0214 => Ok(Extension::ReferenceBlackWhite),
            0x022F => Ok(Extension::StripRowCounts),
            0x02BC => Ok(Extension::XMP),
            0x800D => Ok(Extension::ImageID),
            0x87AC => Ok(Extension::ImageLayer),
            _ => Err(TiffError::UnknownTagId),
        }
    }

    /// The exact numeric identifier of this tag.
    pub fn to_u16(&self) -> (r: u16)
        ensures
            r == extension_id(*self),
    {
        match self {
            Extension::DocumentName => 0x010D,
            Extension::PageName => 0x011D,
            Extension::XPosition => 0x011E,
            Extension::YPosition => 0x011F,
            Extension::T4Options => 0x0124,
            Extension::T6Options => 0x0125,
            Extension::PageNumber => 0x0129,
            Extension::TransferFunction => 0x012D,
            Extension::Predictor => 0x013D,
            Extension::WhitePoint => 0x013E,
            Extension::PrimaryChromaticities => 0x013F,
            Extension::HalftoneHints => 0x0141,
            Extension::TileWidth => 0x0142,
            Extension::TileLength => 0x0143,
            Extension::TileOffsets => 0x0144,
            Extension::TileByteCounts => 0x0145,
            Extension::BadFaxLines => 0x0146,
            Extension::CleanFaxData => 0x0147,
            Extension::ConsecutiveBadFaxLines => 0x0148,
            Extension::SubIFDs => 0x014A,
            Extension::InkSet => 0x014C,
            Extension::InkNames => 0x014D,
            Extension::NumberOfInks => 0x014E,
            Extension::DotRange => 0x0150,
            Extension::TargetPrinter => 0x0151,
            Extension::SampleFormat => 0x0153,
            Extension::SMinSampleValue => 0x0154,
            Extension::SMaxSampleValue => 0x0155,
            Extension::TransferRange => 0x0156,
            Extension::ClipPath => 0x0157,
            Extension::XClipPathUnits => 0x0158,
            Extension::YClipPathUnits => 0x0159,
            Extension::Indexed => 0x015A,
            Extension::JPEGTables => 0x015B,
            Extension::OPIProxy => 0x015F,
            Extension::GlobalParametersIFD => 0x0190,
            Extension::ProfileType => 0x0191,
            Extension::FaxProfile => 0x0192,
            Extension::CodingMethods => 0x0193,
            Extension::VersionYear => 0x0194,
            Extension::ModeNumber => 0x0195,
            Extension::Decode => 0x01B1,
            Extension::DefaultImageColor => 0x01B2,
            Extension::JPEGProc => 0x0200,
            Extension::JPEGInterchangeFormat => 0x0201,
            Extension::JPEGInterchangeFormatLength => 0x0202,
            Extension::JPEGRestartInterval => 0x0203,
            Extension::JPEGLosslessPredictors => 0x0205,
            Extension::JPEGPointTransforms => 0x0206,
            Extension::JPEGQTables => 0x0207,
            Extension::JPEGDCTables => 0x0208,
            Extension::JPEGACTables => 0x0209,
            Extension::YCbCrCoefficients => 0x0211,
            Extension::YCbCrSubSampling => 0x0212,
            Extension::YCbCrPositioning => 0x0213,
            Extension::ReferenceBlackWhite => 0x0214,
            Extension::StripRowCounts => 0x022F,
            Extension::XMP => 0x02BC,
            Extension::ImageID => 0x800D,
            Extension::ImageLayer => 0x87AC,
        }
    }
}

/// A tag identity: a named Baseline or Extension tag, or a private
/// identifier kept as its raw number.
#[derive(Clone, Copy, Debug, PartialEq, Eq, Structural)]
pub enum TagID {
    /// An identifier in neither fixed table.
    PrivateTag(u16),
    /// An identifier of the Baseline table.
    BaselineTag(Baseline),
    /// An identifier of the Extension table.
    ExtensionTag(Extension),
}

/// The identity a numeric identifier is classified as: Baseline first, then
/// Extension, then the private fallback.  Total: every identifier is legal.
pub open spec fn tag_id_of(n: u16) -> TagID {
    match spec_baseline_from(n) {
        Some(b) => TagID::BaselineTag(b),
        None => match spec_extension_from(n) {
            Some(e) => TagID::ExtensionTag(e),
            None => TagID::PrivateTag(n),
        },
    }
}

/// The numeric identifier a tag identity stands for.
pub open spec fn tag_id_num(id: TagID) -> u16 {
    match id {
        TagID::PrivateTag(n) => n,
        TagID::BaselineTag(b) => baseline_id(b),
        TagID::ExtensionTag(e) => extension_id(e),
    }
}

impl TagID {
    /// Classifies a numeric identifier: the Baseline table first, then the
    /// Extension table, then the private namespace.
    pub fn from_u16(n: u16) -> (r: TagID)
        ensures
            r == tag_id_of(n),
    {
        if let Ok(value) = Baseline::from_u16(n) {
            return TagID::BaselineTag(value);
        }
        if let Ok(value) = Extension::from_u16(n) {
            return TagID::ExtensionTag(value);
        }
        TagID::PrivateTag(n)
    }

    /// The exact numeric identifier this identity stands for.
    pub fn to_u16(&self) -> (r: u16)
        ensures
            r == tag_id_num(*self),
    {
        match self {
            TagID::PrivateTag(n) => *n,
            TagID::BaselineTag(b) => b.to_u16(),
            TagID::ExtensionTag(e) => e.to_u16(),
        }
    }
}

} // verus!
