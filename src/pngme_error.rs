use vstd::prelude::*;

verus! {

/// The ways in which reading or editing a PNG file can fail.
#[derive(Debug, Clone, Copy, PartialEq, Eq, Structural)]
pub enum PngMeError {
    /// A chunk type given as text did not hold exactly four bytes; carries the length found.
    ChunkTypeByteLengthError(usize),
    /// A chunk type byte was not an ASCII letter.
    InvalidCharacterChunkType,
    /// The stored CRC (first) differs from the one computed over type and data (second).
    CrcDoNotMatch(u32, u32),
    /// The buffer does not start with the PNG signature.
    IncorrectFileHeader,
    /// No chunk of the requested type is in the file.
    ChunkTypeNotPresent,
    /// A chunk record runs past the end of the buffer.
    TruncatedInput,
    /// Chunk data asked for as text is not valid UTF-8.
    NotUtf8,
}

} // verus!
