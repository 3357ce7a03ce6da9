use crate::bytes::be_u32;
use crate::errors::{Corruption, ImageError};
use crate::reader::Reader;
use crate::types::{Color, ColorMode, Dimensions, Format, ImageMeta, Tag};
use vstd::prelude::*;

verus! {

/// The eight bytes with which every PNG stream begins.
pub open spec fn signature() -> Seq<u8> {
    seq![0x89u8, 0x50u8, 0x4eu8, 0x47u8, 0x0du8, 0x0au8, 0x1au8, 0x0au8]
}

/// `IHDR`, the tag of the chunk that must come first.
pub open spec fn header_tag() -> Tag {
    Tag(0x49, 0x48, 0x44, 0x52)
}

/// The mode and the alpha flag that a colour type code stands for; `None`
/// for a code that the format does not define.
pub open spec fn color_model(code: u8) -> Option<(ColorMode, bool)> {
    if code == 0 {
        Some((ColorMode::Grayscale, false))
    } else if code == 2 {
        Some((ColorMode::Rgb, false))
    } else if code == 3 {
        Some((ColorMode::Indexed, false))
    } else if code == 4 {
        Some((ColorMode::Grayscale, true))
    } else if code == 6 {
        Some((ColorMode::Rgb, true))
    } else {
        None
    }
}

/// The length that a chunk starting at `bytes` declares for its payload.
pub open spec fn payload_len(bytes: Seq<u8>) -> nat
    recommends
        bytes.len() >= 4,
{
    be_u32(bytes) as nat
}

/// Whether `bytes` holds a whole chunk up to the end of its payload: the
/// length, the tag and as many payload bytes as the length declares.
pub open spec fn chunk_complete(bytes: Seq<u8>) -> bool {
    bytes.len() >= 8 && bytes.len() >= 8 + payload_len(bytes)
}

/// The payload of the chunk at the start of `bytes`.
pub open spec fn chunk_payload(bytes: Seq<u8>) -> Seq<u8>
    recommends
        chunk_complete(bytes),
{
    bytes.subrange(8, 8 + payload_len(bytes) as int)
}

/// The number of bytes that reading the chunk at the start of `bytes`
/// passes over: the chunk with its checksum of four bytes, as far as the
/// checksum is there; where the chunk is cut short, the fields that were
/// still whole.
pub open spec fn chunk_advance(bytes: Seq<u8>) -> nat {
    if bytes.len() < 4 {
        0
    } else if bytes.len() < 8 {
        4
    } else if bytes.len() < 8 + payload_len(bytes) {
        8
    } else if bytes.len() < 12 + payload_len(bytes) {
        bytes.len()
    } else {
        12 + payload_len(bytes)
    }
}

/// Whether the format permits samples of `depth` bits in an image of the
/// colour type `code`: 1, 2, 4, 8 or 16 for grey samples, 1, 2, 4 or 8 for
/// palette indices, 8 or 16 wherever a pixel has several samples.
pub open spec fn depth_permitted(code: u8, depth: u8) -> bool {
    if code == 0 {
        depth == 1 || depth == 2 || depth == 4 || depth == 8 || depth == 16
    } else if code == 3 {
        depth == 1 || depth == 2 || depth == 4 || depth == 8
    } else if code == 2 || code == 4 || code == 6 {
        depth == 8 || depth == 16
    } else {
        false
    }
}

/// What the whole payload of a header chunk says of the image: width and
/// height, four bytes each, then the bit depth and the colour type. A
/// payload of fewer than ten bytes cannot hold them. The colour type is
/// judged first, then the bit depth that goes with it.
pub open spec fn header_fields(payload: Seq<u8>) -> Result<(Dimensions, Color), ImageError> {
    if payload.len() < 10 {
        Err(
            ImageError::CorruptImage(
                Corruption::ChunkTooShort(header_tag(), payload.len() as u32),
            ),
        )
    } else {
        match color_model(payload[9]) {
            Some((mode, alpha_channel)) => if depth_permitted(payload[9], payload[8]) {
                Ok(
                    (
                        Dimensions {
                            width: be_u32(payload) as u32,
                            height: be_u32(payload.skip(4)) as u32,
                        },
                        Color { mode, alpha_channel, resolution: payload[8] },
                    ),
                )
            } else {
                Err(
                    ImageError::CorruptImage(
                        Corruption::InvalidBitDepth(payload[9], payload[8]),
                    ),
                )
            },
            None => Err(ImageError::CorruptImage(Corruption::InvalidColorType(payload[9]))),
        }
    }
}

/// What the first chunk of a stream, which starts at `bytes`, says of the
/// image.
pub open spec fn header(bytes: Seq<u8>) -> Result<(Dimensions, Color), ImageError> {
    if !chunk_complete(bytes) {
        Err(ImageError::UnexpectedEof)
    } else if Tag::of(bytes.skip(4)) != header_tag() {
        Err(ImageError::CorruptImage(Corruption::NotHeaderChunk(Tag::of(bytes.skip(4)))))
    } else {
        header_fields(chunk_payload(bytes))
    }
}

/// The metadata of the PNG stream `bytes`, or the reason why it has none.
pub open spec fn decode(bytes: Seq<u8>) -> Result<ImageMeta, ImageError> {
    if bytes.len() < 8 {
        Err(ImageError::UnexpectedEof)
    } else if bytes.take(8) != signature() {
        Err(ImageError::InvalidSignature)
    } else {
        match header(bytes.skip(8)) {
            Ok((dimensions, color)) => Ok(
                ImageMeta { animation_frames: None, color, dimensions, format: Format::Png },
            ),
            Err(e) => Err(e),
        }
    }
}

/// The number of leading bytes of the stream `bytes` that carry what
/// `decode` reads: the signature and the first chunk up to the end of its
/// payload.
pub open spec fn structural_len(bytes: Seq<u8>) -> nat
    recommends
        bytes.len() >= 12,
{
    16 + payload_len(bytes.skip(8))
}

/// Growing a stream changes no verdict but "not enough data": a leading part
/// of a stream is either too short to decide, or decoded exactly as the
/// whole stream is.
pub proof fn lemma_prefix_verdict(prefix: Seq<u8>, full: Seq<u8>)
    requires
        prefix.is_prefix_of(full),
    ensures
        decode(prefix) == Err::<ImageMeta, ImageError>(ImageError::UnexpectedEof) || decode(prefix)
            == decode(full),
{
    if prefix.len() >= 8 {
        assert(prefix.take(8) =~= full.take(8));
        let p = prefix.skip(8);
        let f = full.skip(8);
        assert(p.is_prefix_of(f));
        if chunk_complete(p) {
            assert(payload_len(p) == payload_len(f));
            assert(Tag::of(p.skip(4)) == Tag::of(f.skip(4)));
            assert(chunk_payload(p) =~= chunk_payload(f));
        }
    }
}

/// Of a stream that decodes, a leading part decodes as soon as it holds the
/// structural bytes, to the same metadata, and is short of data before.
pub proof fn lemma_prefix_progress(prefix: Seq<u8>, full: Seq<u8>)
    requires
        prefix.is_prefix_of(full),
        decode(full) is Ok,
    ensures
        prefix.len() >= structural_len(full) ==> decode(prefix) == decode(full),
        prefix.len() < structural_len(full) ==> decode(prefix) == Err::<ImageMeta, ImageError>(
            ImageError::UnexpectedEof,
        ),
{
    lemma_prefix_verdict(prefix, full);
    if prefix.len() >= 8 {
        assert(prefix.take(8) =~= full.take(8));
        let p = prefix.skip(8);
        let f = full.skip(8);
        assert(p.is_prefix_of(f));
        if p.len() >= 4 {
            assert(payload_len(p) == payload_len(f));
        }
    }
}

/// The number of bytes that decoding the stream `bytes` passes over, from
/// its start: none while the signature is not whole, the eight bytes of a
/// wrong signature, and behind a right one what `chunk_advance` says of the
/// first chunk.
pub open spec fn consumed(bytes: Seq<u8>) -> nat {
    if bytes.len() < 8 {
        0
    } else if bytes.take(8) != signature() {
        8
    } else {
        8 + chunk_advance(bytes.skip(8))
    }
}

/// Whether a PNG image can have this colour model: the mode and the alpha
/// flag of one of the five colour types, with a bit depth that the format
/// permits for that type.
pub open spec fn color_permitted(color: Color) -> bool {
    exists|code: u8|
        color_model(code) == Some((color.mode, color.alpha_channel)) && #[trigger] depth_permitted(
            code,
            color.resolution,
        )
}

/// Whatever is decoded has a colour model that the format permits.
pub proof fn lemma_color_is_permitted(bytes: Seq<u8>)
    requires
        decode(bytes) is Ok,
    ensures
        color_permitted(decode(bytes).unwrap().color),
{
    let payload = chunk_payload(bytes.skip(8));
    let color = decode(bytes).unwrap().color;
    assert(header(bytes.skip(8)) is Ok);
    assert(header_fields(payload) is Ok);
    assert(payload.len() >= 10);
    assert(color == header_fields(payload).unwrap().1);
    assert(color_model(payload[9]) == Some((color.mode, color.alpha_channel)));
    assert(depth_permitted(payload[9], color.resolution));
}

/// Once a leading part of a stream has a verdict other than "not enough
/// data", and the decoder has not passed all of that part, it passes as
/// many bytes on the whole stream.
pub proof fn lemma_prefix_consumed(prefix: Seq<u8>, full: Seq<u8>)
    requires
        prefix.is_prefix_of(full),
        decode(prefix) != Err::<ImageMeta, ImageError>(ImageError::UnexpectedEof),
        consumed(prefix) < prefix.len(),
    ensures
        consumed(full) == consumed(prefix),
{
    if prefix.len() >= 8 {
        assert(prefix.take(8) =~= full.take(8));
        let p = prefix.skip(8);
        let f = full.skip(8);
        assert(p.is_prefix_of(f));
        if p.len() >= 4 {
            assert(payload_len(p) == payload_len(f));
        }
    }
}

/// Reads the metadata of a PNG stream from its leading bytes. Frames of an
/// animated stream are not counted.
pub fn load(image: &[u8]) -> (r: Result<ImageMeta, ImageError>)
    ensures
        r == decode(image@),
{
    let mut reader = Reader::new(image);
    assert(reader.remaining() =~= image@);
    load_from(&mut reader)
}

/// Reads the metadata of the PNG stream that starts at the cursor, and
/// leaves the cursor behind what was read: on success behind the checksum
/// of the first chunk.
pub fn load_from(image: &mut Reader) -> (r: Result<ImageMeta, ImageError>)
    ensures
        final(image).source() == old(image).source(),
        r == decode(old(image).remaining()),
        final(image).position() == old(image).position() + consumed(old(image).remaining()),
{
    read_signature(image)?;
    let (dimensions, color) = read_header(image)?;
    Ok(ImageMeta { animation_frames: None, color, dimensions, format: Format::Png })
}

/// Reads eight bytes and tells whether they are the signature.
pub fn read_signature(image: &mut Reader) -> (r: Result<(), ImageError>)
    ensures
        final(image).source() == old(image).source(),
        match r {
            Ok(_) => {
                &&& old(image).remaining().len() >= 8
                &&& old(image).remaining().take(8) == signature()
                &&& final(image).position() == old(image).position() + 8
                &&& final(image).remaining() == old(image).remaining().skip(8)
            },
            Err(ImageError::UnexpectedEof) => {
                &&& old(image).remaining().len() < 8
                &&& *final(image) == *old(image)
            },
            Err(e) => {
                &&& e == ImageError::InvalidSignature
                &&& old(image).remaining().len() >= 8
                &&& old(image).remaining().take(8) != signature()
                &&& final(image).position() == old(image).position() + 8
            },
        },
{
    let s = image.read_exact(8)?;
    if s[0] == 0x89 && s[1] == 0x50 && s[2] == 0x4e && s[3] == 0x47 && s[4] == 0x0d && s[5] == 0x0a
        && s[6] == 0x1a && s[7] == 0x0a {
        assert(s@ =~= signature());
        Ok(())
    } else {
        Err(ImageError::InvalidSignature)
    }
}

/// Reads the first chunk and interprets it as the header.
pub fn read_header(image: &mut Reader) -> (r: Result<(Dimensions, Color), ImageError>)
    ensures
        final(image).source() == old(image).source(),
        r == header(old(image).remaining()),
        final(image).position() == old(image).position() + chunk_advance(old(image).remaining()),
{
    let (name, data) = read_chunk(image)?;
    if name != Tag(0x49, 0x48, 0x44, 0x52) {
        return Err(ImageError::CorruptImage(Corruption::NotHeaderChunk(name)));
    }
    if data.len() < 10 {
        return Err(
            ImageError::CorruptImage(Corruption::ChunkTooShort(name, data.len() as u32)),
        );
    }
    let mut fields = Reader::new(data);
    assert(fields.remaining() =~= data@);
    let width = fields.read_u32_be()?;
    let height = fields.read_u32_be()?;
    let resolution = fields.read_u8()?;
    let code = fields.read_u8()?;
    assert(resolution == data@[8] && code == data@[9]);
    let (mode, alpha_channel) = match code {
        0 => (ColorMode::Grayscale, false),
        2 => (ColorMode::Rgb, false),
        3 => (ColorMode::Indexed, false),
        4 => (ColorMode::Grayscale, true),
        6 => (ColorMode::Rgb, true),
        _ => { return Err(ImageError::CorruptImage(Corruption::InvalidColorType(code))); },
    };
    if !permits_depth(code, resolution) {
        return Err(ImageError::CorruptImage(Corruption::InvalidBitDepth(code, resolution)));
    }
    Ok((Dimensions { width, height }, Color { mode, alpha_channel, resolution }))
}

/// Tells whether the format permits samples of `depth` bits in an image of
/// the colour type `code`.
pub fn permits_depth(code: u8, depth: u8) -> (r: bool)
    ensures
        r == depth_permitted(code, depth),
{
    match code {
        0 => depth == 1 || depth == 2 || depth == 4 || depth == 8 || depth == 16,
        3 => depth == 1 || depth == 2 || depth == 4 || depth == 8,
        2 | 4 | 6 => depth == 8 || depth == 16,
        _ => false,
    }
}

/// Reads one chunk: its length, its tag and its payload, and passes over
/// the checksum that follows, which is not verified.
pub fn read_chunk<'a>(image: &mut Reader<'a>) -> (r: Result<(Tag, &'a [u8]), ImageError>)
    ensures
        final(image).source() == old(image).source(),
        final(image).position() == old(image).position() + chunk_advance(old(image).remaining()),
        match r {
            Ok((name, data)) => {
                &&& chunk_complete(old(image).remaining())
                &&& name == Tag::of(old(image).remaining().skip(4))
                &&& data@ == chunk_payload(old(image).remaining())
            },
            Err(e) => {
                &&& e == ImageError::UnexpectedEof
                &&& !chunk_complete(old(image).remaining())
            },
        },
{
    let length = image.read_u32_be()?;
    let name = image.read_exact(4)?;
    let data = image.read_exact(length as usize)?;
    image.skip(4);
    proof {
        let rem = old(image).remaining();
        assert(name@ =~= rem.skip(4).take(4));
        assert(data@ =~= chunk_payload(rem));
    }
    Ok((Tag::from_slice(name), data))
}

} // verus!
