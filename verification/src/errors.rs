use crate::types::Tag;
use vstd::prelude::*;

verus! {

/// What was found to be outside a format's legal domain.
#[derive(Clone, Copy, Debug, PartialEq, Eq, Structural)]
pub enum Corruption {
    /// The first chunk of a PNG stream carries this tag in place of `IHDR`.
    NotHeaderChunk(Tag),
    /// The colour type code of a PNG header is none of 0, 2, 3, 4, 6.
    InvalidColorType(u8),
    /// A PNG header pairs this colour type with this bit depth, which the
    /// format does not permit for it.
    InvalidBitDepth(u8, u8),
    /// The information header of a BMP file declares this size, which is
    /// neither 12 nor at least 16.
    InvalidHeaderSize(u32),
    /// The width field of a BMP information header holds this negative
    /// number, given here as the unsigned number of the same four bytes.
    NegativeWidth(u32),
    /// The bit count of a BMP header is none of 1, 4, 8, 16, 24, 32.
    InvalidBitCount(u16),
    /// A JPEG marker was expected, and this byte stands in place of `ff`.
    NotAMarker(u8),
    /// `ff 00` stands where a JPEG marker was expected.
    InvalidMarker,
    /// The JPEG marker with this code ends the headers, and no frame header
    /// came before it.
    MissingFrameHeader(u8),
    /// The JPEG segment with this marker code declares this length, which
    /// is less than the segment's fixed part.
    InvalidSegmentLength(u8, u16),
    /// The JPEG frame header behind the marker with this code declares this
    /// sample precision, which the coding process of that marker does not
    /// permit.
    InvalidPrecision(u8, u8),
    /// A JPEG frame header declares this number of components, which is
    /// none of 1, 3 and 4.
    InvalidComponentCount(u8),
    /// The size field of a RIFF container is too small for the form tag.
    ContainerTooSmall(u32),
    /// A RIFF container ends, by its size field, before any chunk that
    /// carries dimensions.
    NoImageChunk,
    /// The chunk with this tag declares a payload of this length, which
    /// reaches beyond the end of its container.
    ChunkOutsideContainer(Tag, u32),
    /// The chunk with this tag declares a payload of this length, which is
    /// too short for the record it must hold.
    ChunkTooShort(Tag, u32),
    /// The start code of a lossy WebP frame is not `9d 01 2a`.
    InvalidStartCode,
    /// A lossless WebP bitstream begins with this byte in place of `2f`.
    InvalidLosslessSignature(u8),
}

/// Why no metadata could be produced.
#[derive(Clone, Copy, Debug, PartialEq, Eq, Structural)]
pub enum ImageError {
    /// A field that is present holds a value its format does not allow.
    CorruptImage(Corruption),
    /// The leading bytes are not the signature of the format asked for.
    InvalidSignature,
    /// The source ended before a required field was complete. More bytes
    /// of the same stream may turn this into a success.
    UnexpectedEof,
    /// The leading bytes match no known signature.
    UnsupportedFormat,
    /// A seek would have moved the position before the start of the source.
    InvalidSeek,
}

pub type ImageResult<T> = Result<T, ImageError>;

} // verus!
