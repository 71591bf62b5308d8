//! The error taxonomy of the reader.
//!
//! Every failure is surfaced to the caller as a typed result; no recovery is
//! attempted internally and there is no partial-success mode.

use vstd::prelude::*;

verus! {

/// Everything that can go wrong while decoding a TIFF structure.
#[derive(Clone, Copy, Debug, PartialEq, Eq, Structural)]
pub enum TiffError {
    /// A read ran past the end of the byte source.
    UnexpectedEndOfBuffer,
    /// The byte-order magic was neither `II` nor `MM`.
    UnexpectedHeaderByteOrder,
    /// The version word was neither 42 (Classic) nor 43 (Big).
    UnexpectedHeaderVersion,
    /// A BigTIFF header whose offset-size field is not 8.
    UnexpectedHeaderOffsetSize,
    /// A BigTIFF header whose reserved field is not 0.
    UnexpectedHeaderReserved,
    /// The byte source could not be opened at all.
    CannotOpenFile,
    /// A seek or position operation failed.
    UnknownBufferError,
    /// A tag record carries an unrecognized 16-bit kind code.
    UnknownTagKind,
    /// Reserved for unrecognized tag identifiers.
    UnknownTagId,
    /// A frame index at or beyond the number of directories.
    InvalidIndex,
    /// A value coercion whose precondition does not hold.
    IncompatibleTagDataKind,
    /// A lookup for a tag identity that the directory does not contain.
    CannotFindTag,
    /// A compression tag whose numeric value is not a recognized scheme.
    NotSupportedCompressionScheme,
}

} // verus!
