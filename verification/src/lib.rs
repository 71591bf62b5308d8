//! A verified reader for the structure of TIFF and BigTIFF containers.
//!
//! The crate decodes the header, the chain of image file directories (IFDs)
//! and the typed tag values of a TIFF byte image held in memory.  Pixel data
//! is never interpreted; the reader only reconstructs the metadata skeleton
//! of the file and offers typed accessors on top of a numeric coercion layer.
//!
//! Every decoder is specified against a mathematical grammar over the byte
//! sequence, and the serialization lemmas show that the grammar inverts a
//! directory's encoding exactly.
#![verifier::loop_isolation(false)]

pub mod bytes;
pub mod coerce;
pub mod encode;
pub mod enums;
pub mod error;
pub mod header;
pub mod ifd;
pub mod tagid;
pub mod tiff;
pub mod value;
