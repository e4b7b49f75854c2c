//! Palette file format selection and the errors of the binary codecs.

use vstd::prelude::*;

verus! {

/// The on-disk encodings a palette can be read from or written to.
#[derive(Clone, Copy, Debug, PartialEq, Eq, Structural)]
pub enum PaletteFile {
    /// 512 bytes: 256 colors of 2 bytes each, BGR555 little-endian.
    BGR555,
    /// 768 bytes: 256 colors of 3 bytes each, 8 bits per channel.
    RGB24,
}

impl Default for PaletteFile {
    fn default() -> (f: PaletteFile)
        ensures
            f == PaletteFile::BGR555,
    {
        PaletteFile::BGR555
    }
}

/// Why a byte buffer was rejected by a decoder.  All of these are
/// recoverable: the caller keeps its previous document and reports the
/// problem; no decoder mutates anything on failure.
#[derive(Clone, Copy, Debug, PartialEq, Eq, Structural)]
pub enum FormatError {
    /// The buffer is empty where at least one tile is required.
    Empty,
    /// The buffer length is not a multiple of the record size.
    Misaligned,
    /// The buffer is longer than the document it decodes into.
    TooLarge,
    /// The buffer holds more tiles than a 10-bit tile reference can address.
    TooManyTiles,
    /// The buffer length is not exactly the one the format demands.
    WrongSize,
}

} // verus!
