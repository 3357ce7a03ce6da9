use crate::bytes::{le_u16, le_u24, le_u32};
use crate::errors::{Corruption, ImageError};
use crate::reader::{passed, Reader};
use crate::types::{Color, ColorMode, Dimensions, Format, ImageMeta, Tag};
use vstd::prelude::*;

verus! {

/// `RIFF`, the tag with which the container begins.
pub open spec fn riff_tag() -> Tag {
    Tag(0x52, 0x49, 0x46, 0x46)
}

/// `WEBP`, the form tag of the container.
pub open spec fn form_tag() -> Tag {
    Tag(0x57, 0x45, 0x42, 0x50)
}

/// `VP8 `, the tag of a lossy bitstream.
pub open spec fn lossy_tag() -> Tag {
    Tag(0x56, 0x50, 0x38, 0x20)
}

/// `VP8L`, the tag of a lossless bitstream.
pub open spec fn lossless_tag() -> Tag {
    Tag(0x56, 0x50, 0x38, 0x4c)
}

/// `VP8X`, the tag of the extended header.
pub open spec fn extended_tag() -> Tag {
    Tag(0x56, 0x50, 0x38, 0x58)
}

/// `ANMF`, the tag of one animation frame.
pub open spec fn frame_tag() -> Tag {
    Tag(0x41, 0x4e, 0x4d, 0x46)
}

/// The metadata of a WebP image with these properties. Samples have eight
/// bits and the mode is RGB in every WebP image.
pub open spec fn meta(width: int, height: int, alpha_channel: bool, frames: Option<usize>)
    -> ImageMeta {
    ImageMeta {
        animation_frames: frames,
        color: Color { mode: ColorMode::Rgb, alpha_channel, resolution: 8 },
        dimensions: Dimensions { width: width as u32, height: height as u32 },
        format: Format::Webp,
    }
}

/// The frame count to report where `frames` frame chunks were passed and
/// the header did or did not announce an animation.
pub open spec fn frame_count(announced: bool, frames: nat) -> Option<usize> {
    if announced || frames > 0 {
        Some(frames as usize)
    } else {
        None
    }
}

/// What a lossy bitstream chunk says of the image. `payload` starts at the
/// chunk's payload and may be cut short; `length` is the payload's declared
/// length. Width and height are the low 14 bits of two little-endian
/// numbers that follow the frame tag and the start code.
pub open spec fn lossy(payload: Seq<u8>, length: nat, frames: nat) -> Result<
    ImageMeta,
    ImageError,
> {
    if length < 10 {
        Err(ImageError::CorruptImage(Corruption::ChunkTooShort(lossy_tag(), length as u32)))
    } else if payload.len() < 10 {
        Err(ImageError::UnexpectedEof)
    } else if !(payload[3] == 0x9d && payload[4] == 0x01 && payload[5] == 0x2a) {
        Err(ImageError::CorruptImage(Corruption::InvalidStartCode))
    } else {
        Ok(
            meta(
                le_u16(payload.skip(6)) % 0x4000,
                le_u16(payload.skip(8)) % 0x4000,
                false,
                frame_count(false, frames),
            ),
        )
    }
}

/// What a lossless bitstream chunk says of the image. After the signature
/// byte comes one little-endian word: 14 bits of width less one, 14 bits
/// of height less one, and the alpha bit.
pub open spec fn lossless(payload: Seq<u8>, length: nat, frames: nat) -> Result<
    ImageMeta,
    ImageError,
> {
    if length < 5 {
        Err(ImageError::CorruptImage(Corruption::ChunkTooShort(lossless_tag(), length as u32)))
    } else if payload.len() < 5 {
        Err(ImageError::UnexpectedEof)
    } else if payload[0] != 0x2f {
        Err(ImageError::CorruptImage(Corruption::InvalidLosslessSignature(payload[0])))
    } else {
        let bits = le_u32(payload.skip(1));
        Ok(
            meta(
                bits % 0x4000 + 1,
                (bits / 0x4000) % 0x4000 + 1,
                (bits / 0x1000_0000) % 2 == 1,
                frame_count(false, frames),
            ),
        )
    }
}

/// What an extended header chunk says of the image: the canvas size, each
/// side stored less one in three bytes, and the alpha and animation flags.
pub open spec fn extended(payload: Seq<u8>, length: nat, frames: nat) -> Result<
    ImageMeta,
    ImageError,
> {
    if length < 10 {
        Err(ImageError::CorruptImage(Corruption::ChunkTooShort(extended_tag(), length as u32)))
    } else if payload.len() < 10 {
        Err(ImageError::UnexpectedEof)
    } else {
        Ok(
            meta(
                le_u24(payload.skip(4)) + 1,
                le_u24(payload.skip(7)) + 1,
                (payload[0] as int / 0x10) % 2 == 1,
                frame_count((payload[0] as int / 0x02) % 2 == 1, frames),
            ),
        )
    }
}

/// The length of a payload of `length` bytes with its padding to an even
/// number.
pub open spec fn padded(length: nat) -> nat {
    length + length % 2
}

/// What the chunks that start at `bytes` say of the image, where the
/// container declares `room` more bytes and `frames` frame chunks were
/// passed already. The first chunk that carries dimensions decides; other
/// chunks are passed over. A field that would lie beyond the container's
/// declared end is corruption; one that lies within it, but beyond the end
/// of `bytes`, is want of data.
pub open spec fn scan(bytes: Seq<u8>, room: nat, frames: nat) -> Result<ImageMeta, ImageError>
    decreases room,
{
    if room < 8 {
        Err(ImageError::CorruptImage(Corruption::NoImageChunk))
    } else if bytes.len() < 8 {
        Err(ImageError::UnexpectedEof)
    } else {
        let tag = Tag::of(bytes);
        let length = le_u32(bytes.skip(4)) as nat;
        let payload = bytes.skip(8);
        if length > room - 8 {
            Err(ImageError::CorruptImage(Corruption::ChunkOutsideContainer(tag, length as u32)))
        } else if tag == lossy_tag() {
            lossy(payload, length, frames)
        } else if tag == lossless_tag() {
            lossless(payload, length, frames)
        } else if tag == extended_tag() {
            extended(payload, length, frames)
        } else {
            let used = if padded(length) <= room - 8 {
                padded(length)
            } else {
                (room - 8) as nat
            };
            scan(
                payload.skip(passed(payload, used) as int),
                (room - 8 - used) as nat,
                if tag == frame_tag() {
                    frames + 1
                } else {
                    frames
                },
            )
        }
    }
}

/// The number of payload bytes that are read of the chunk with this tag,
/// where it carries dimensions.
pub open spec fn record_len(tag: Tag) -> nat {
    if tag == lossless_tag() {
        5
    } else {
        10
    }
}

/// The number of bytes from the start of `bytes` to the end of the fields
/// that are read of the first chunk that carries dimensions, where the
/// chunk walk finds one in a container of `room` more bytes: the chunks
/// that the walk passes, the header of that chunk, and its record.
pub open spec fn scan_span(bytes: Seq<u8>, room: nat) -> nat
    decreases room,
{
    if room < 8 || bytes.len() < 8 {
        0
    } else {
        let tag = Tag::of(bytes);
        let length = le_u32(bytes.skip(4)) as nat;
        let payload = bytes.skip(8);
        if length > room - 8 {
            0
        } else if tag == lossy_tag() || tag == lossless_tag() || tag == extended_tag() {
            8 + record_len(tag)
        } else {
            let used = if padded(length) <= room - 8 {
                padded(length)
            } else {
                (room - 8) as nat
            };
            8 + passed(payload, used) + scan_span(
                payload.skip(passed(payload, used) as int),
                (room - 8 - used) as nat,
            )
        }
    }
}

/// The number of bytes that decoding the stream `bytes` passes over: up to
/// the end of the fields read of the chunk that carries the dimensions
/// where it succeeds, none where it fails.
pub open spec fn consumed(bytes: Seq<u8>) -> nat {
    if decode(bytes) is Ok {
        12 + scan_span(bytes.skip(12), (le_u32(bytes.skip(4)) - 4) as nat)
    } else {
        0
    }
}

/// The metadata of the WebP stream `bytes`, or the reason why it has none.
/// The stream begins with twelve bytes: the tag `RIFF`, the little-endian
/// size of what follows the size field, and the form tag `WEBP`.
pub open spec fn decode(bytes: Seq<u8>) -> Result<ImageMeta, ImageError> {
    if bytes.len() < 12 {
        Err(ImageError::UnexpectedEof)
    } else if Tag::of(bytes) != riff_tag() || Tag::of(bytes.skip(8)) != form_tag() {
        Err(ImageError::InvalidSignature)
    } else if le_u32(bytes.skip(4)) < 4 {
        Err(ImageError::CorruptImage(Corruption::ContainerTooSmall(le_u32(bytes.skip(4)) as u32)))
    } else {
        scan(bytes.skip(12), (le_u32(bytes.skip(4)) - 4) as nat, 0)
    }
}

/// Whatever the chunk walk finds is a WebP image in RGB with eight bits per
/// sample. It comes with a frame count wherever a frame chunk was passed.
pub proof fn lemma_scan_result(bytes: Seq<u8>, room: nat, frames: nat)
    requires
        scan(bytes, room, frames) is Ok,
    ensures
        scan(bytes, room, frames).unwrap().format == Format::Webp,
        scan(bytes, room, frames).unwrap().color.mode == ColorMode::Rgb,
        scan(bytes, room, frames).unwrap().color.resolution == 8,
        frames > 0 ==> scan(bytes, room, frames).unwrap().animation_frames is Some,
    decreases room,
{
    let tag = Tag::of(bytes);
    let length = le_u32(bytes.skip(4)) as nat;
    let payload = bytes.skip(8);
    if tag != lossy_tag() && tag != lossless_tag() && tag != extended_tag() {
        let used = if padded(length) <= room - 8 {
            padded(length)
        } else {
            (room - 8) as nat
        };
        lemma_scan_result(
            payload.skip(passed(payload, used) as int),
            (room - 8 - used) as nat,
            if tag == frame_tag() {
                frames + 1
            } else {
                frames
            },
        );
    }
}

/// The chunk walk never answers that the format is unsupported.
pub proof fn lemma_scan_supported(bytes: Seq<u8>, room: nat, frames: nat)
    ensures
        scan(bytes, room, frames) != Err::<ImageMeta, ImageError>(ImageError::UnsupportedFormat),
    decreases room,
{
    if room >= 8 && bytes.len() >= 8 {
        let tag = Tag::of(bytes);
        let length = le_u32(bytes.skip(4)) as nat;
        let payload = bytes.skip(8);
        if length <= room - 8 && tag != lossy_tag() && tag != lossless_tag() && tag
            != extended_tag() {
            let used = if padded(length) <= room - 8 {
                padded(length)
            } else {
                (room - 8) as nat
            };
            lemma_scan_supported(
                payload.skip(passed(payload, used) as int),
                (room - 8 - used) as nat,
                if tag == frame_tag() {
                    frames + 1
                } else {
                    frames
                },
            );
        }
    }
}

/// Growing the bytes changes no verdict of the chunk walk but "not enough
/// data".
pub proof fn lemma_scan_prefix(prefix: Seq<u8>, full: Seq<u8>, room: nat, frames: nat)
    requires
        prefix.is_prefix_of(full),
    ensures
        scan(prefix, room, frames) == Err::<ImageMeta, ImageError>(ImageError::UnexpectedEof)
            || scan(prefix, room, frames) == scan(full, room, frames),
    decreases room,
{
    if room >= 8 && prefix.len() >= 8 {
        let tag = Tag::of(prefix);
        let length = le_u32(prefix.skip(4)) as nat;
        let p = prefix.skip(8);
        let f = full.skip(8);
        assert(tag == Tag::of(full));
        assert(length == le_u32(full.skip(4)));
        assert(p.is_prefix_of(f));
        if length > room - 8 {
        } else if tag == lossy_tag() {
            if p.len() >= 10 {
                assert(le_u16(p.skip(6)) == le_u16(f.skip(6)));
                assert(le_u16(p.skip(8)) == le_u16(f.skip(8)));
            }
        } else if tag == lossless_tag() {
            if p.len() >= 5 {
                assert(le_u32(p.skip(1)) == le_u32(f.skip(1)));
            }
        } else if tag == extended_tag() {
            if p.len() >= 10 {
                assert(le_u24(p.skip(4)) == le_u24(f.skip(4)));
                assert(le_u24(p.skip(7)) == le_u24(f.skip(7)));
            }
        } else {
            let used = if padded(length) <= room - 8 {
                padded(length)
            } else {
                (room - 8) as nat
            };
            let next = if tag == frame_tag() {
                frames + 1
            } else {
                frames
            };
            let left = (room - 8 - used) as nat;
            let p_next = p.skip(passed(p, used) as int);
            let f_next = f.skip(passed(f, used) as int);
            if passed(p, used) != passed(f, used) {
                assert(p_next.len() == 0);
            }
            assert(p_next.is_prefix_of(f_next));
            lemma_scan_prefix(p_next, f_next, left, next);
        }
    }
}

/// Growing a stream changes no verdict but "not enough data": a leading part
/// of a stream is either too short to decide, or decoded exactly as the
/// whole stream is.
pub proof fn lemma_prefix_verdict(prefix: Seq<u8>, full: Seq<u8>)
    requires
        prefix.is_prefix_of(full),
    ensures
        decode(prefix) == Err::<ImageMeta, ImageError>(ImageError::UnexpectedEof) || decode(prefix)
            == decode(full),
{
    if prefix.len() >= 12 {
        assert(Tag::of(prefix) == Tag::of(full));
        assert(Tag::of(prefix.skip(8)) == Tag::of(full.skip(8)));
        assert(le_u32(prefix.skip(4)) == le_u32(full.skip(4)));
        assert(prefix.skip(12).is_prefix_of(full.skip(12)));
        if le_u32(prefix.skip(4)) >= 4 {
            lemma_scan_prefix(
                prefix.skip(12),
                full.skip(12),
                (le_u32(prefix.skip(4)) - 4) as nat,
                0,
            );
        }
    }
}

/// Where the chunk walk finds a chunk that carries dimensions in a leading
/// part of the bytes, it passes as many bytes on the whole.
pub proof fn lemma_span_prefix(prefix: Seq<u8>, full: Seq<u8>, room: nat, frames: nat)
    requires
        prefix.is_prefix_of(full),
        scan(prefix, room, frames) is Ok,
    ensures
        scan_span(full, room) == scan_span(prefix, room),
    decreases room,
{
    let tag = Tag::of(prefix);
    let length = le_u32(prefix.skip(4)) as nat;
    let p = prefix.skip(8);
    let f = full.skip(8);
    assert(tag == Tag::of(full));
    assert(length == le_u32(full.skip(4)));
    assert(p.is_prefix_of(f));
    if tag != lossy_tag() && tag != lossless_tag() && tag != extended_tag() {
        let used = if padded(length) <= room - 8 {
            padded(length)
        } else {
            (room - 8) as nat
        };
        let next = if tag == frame_tag() {
            frames + 1
        } else {
            frames
        };
        let left = (room - 8 - used) as nat;
        let p_next = p.skip(passed(p, used) as int);
        let f_next = f.skip(passed(f, used) as int);
        if passed(p, used) != passed(f, used) {
            assert(p_next.len() == 0);
        }
        assert(p_next.is_prefix_of(f_next));
        lemma_span_prefix(p_next, f_next, left, next);
    }
}

/// Once a leading part of a stream has a verdict other than "not enough
/// data", the decoder passes as many bytes on the whole stream as on that
/// part.
pub proof fn lemma_prefix_consumed(prefix: Seq<u8>, full: Seq<u8>)
    requires
        prefix.is_prefix_of(full),
        decode(prefix) != Err::<ImageMeta, ImageError>(ImageError::UnexpectedEof),
    ensures
        consumed(full) == consumed(prefix),
{
    lemma_prefix_verdict(prefix, full);
    if decode(prefix) is Ok {
        assert(le_u32(prefix.skip(4)) == le_u32(full.skip(4)));
        assert(prefix.skip(12).is_prefix_of(full.skip(12)));
        lemma_span_prefix(
            prefix.skip(12),
            full.skip(12),
            (le_u32(prefix.skip(4)) - 4) as nat,
            0,
        );
    }
}

/// Reads the metadata of a WebP stream from its leading bytes.
pub fn load(image: &[u8]) -> (r: Result<ImageMeta, ImageError>)
    ensures
        r == decode(image@),
{
    let mut reader = Reader::new(image);
    assert(reader.remaining() =~= image@);
    load_from(&mut reader)
}

/// Reads the metadata of the WebP stream that starts at the cursor. On
/// success the cursor is left behind the fields read of the chunk that
/// carries the dimensions; on failure it stays where it was.
pub fn load_from(image: &mut Reader) -> (r: Result<ImageMeta, ImageError>)
    ensures
        final(image).source() == old(image).source(),
        r == decode(old(image).remaining()),
        final(image).position() == old(image).position() + consumed(old(image).remaining()),
{
    let bytes = image.rest();
    let mut fields = Reader::new(bytes);
    assert(fields.remaining() =~= bytes@);
    let size = read_signature(&mut fields)?;
    if size < 4 {
        return Err(ImageError::CorruptImage(Corruption::ContainerTooSmall(size)));
    }
    let (meta, span) = find_image(fields.rest(), size - 4)?;
    assert(span + 12 <= bytes@.len() == bytes.len());
    image.skip(12 + span);
    Ok(meta)
}

/// Reads the twelve bytes of the container's header and gives back the
/// size field.
pub fn read_signature(image: &mut Reader) -> (r: Result<u32, ImageError>)
    ensures
        final(image).source() == old(image).source(),
        match r {
            Ok(size) => {
                &&& old(image).remaining().len() >= 12
                &&& Tag::of(old(image).remaining()) == riff_tag()
                &&& Tag::of(old(image).remaining().skip(8)) == form_tag()
                &&& size == le_u32(old(image).remaining().skip(4))
                &&& final(image).position() == old(image).position() + 12
                &&& final(image).remaining() == old(image).remaining().skip(12)
            },
            Err(ImageError::UnexpectedEof) => {
                &&& old(image).remaining().len() < 12
                &&& *final(image) == *old(image)
            },
            Err(e) => {
                &&& e == ImageError::InvalidSignature
                &&& old(image).remaining().len() >= 12
                &&& (Tag::of(old(image).remaining()) != riff_tag() || Tag::of(
                    old(image).remaining().skip(8),
                ) != form_tag())
                &&& final(image).position() == old(image).position() + 12
            },
        },
{
    let head = image.read_exact(12)?;
    let mut fields = Reader::new(head);
    assert(fields.remaining() =~= head@);
    let riff = fields.read_exact(4)?;
    let size = fields.read_u32_le()?;
    let form = fields.read_exact(4)?;
    proof {
        let rem = old(image).remaining();
        assert(Tag::of(riff@) == Tag::of(rem));
        assert(Tag::of(form@) == Tag::of(rem.skip(8)));
        assert(le_u32(head@.skip(4)) == le_u32(rem.skip(4)));
    }
    if Tag::from_slice(riff) != Tag(0x52, 0x49, 0x46, 0x46) || Tag::from_slice(form) != Tag(
        0x57,
        0x45,
        0x42,
        0x50,
    ) {
        return Err(ImageError::InvalidSignature);
    }
    Ok(size)
}

/// Walks the chunks that start at `bytes`, in a container that declares
/// `room` more bytes, up to the first chunk that carries dimensions. With
/// the metadata comes the number of bytes up to the end of the last field
/// read.
pub fn find_image(bytes: &[u8], room: u32) -> (r: Result<(ImageMeta, usize), ImageError>)
    ensures
        match r {
            Ok((meta, span)) => {
                &&& scan(bytes@, room as nat, 0) == Ok::<ImageMeta, ImageError>(meta)
                &&& span == scan_span(bytes@, room as nat)
                &&& span <= bytes@.len()
            },
            Err(e) => scan(bytes@, room as nat, 0) == Err::<ImageMeta, ImageError>(e),
        },
{
    let mut reader = Reader::new(bytes);
    assert(reader.remaining() =~= bytes@);
    let mut left: u32 = room;
    let mut frames: usize = 0;
    loop
        invariant
            reader.source() == bytes@,
            reader.position() <= bytes@.len(),
            scan(reader.remaining(), left as nat, frames as nat) == scan(bytes@, room as nat, 0),
            reader.position() + scan_span(reader.remaining(), left as nat) == scan_span(
                bytes@,
                room as nat,
            ),
            frames * 8 + left <= room,
        decreases left,
    {
        if left < 8 {
            return Err(ImageError::CorruptImage(Corruption::NoImageChunk));
        }
        let ghost before = reader.remaining();
        let name = reader.read_exact(4)?;
        let length = reader.read_u32_le()?;
        let tag = Tag::from_slice(name);
        assert(tag == Tag::of(before));
        assert(reader.remaining() =~= before.skip(8));
        if length > left - 8 {
            return Err(ImageError::CorruptImage(Corruption::ChunkOutsideContainer(tag, length)));
        }
        if tag == Tag(0x56, 0x50, 0x38, 0x20) {
            let meta = lossy_record(reader.rest(), length, frames)?;
            assert(reader.position() + 10 <= bytes@.len() == bytes.len());
            return Ok((meta, reader.tell() + 10));
        }
        if tag == Tag(0x56, 0x50, 0x38, 0x4c) {
            let meta = lossless_record(reader.rest(), length, frames)?;
            assert(reader.position() + 5 <= bytes@.len() == bytes.len());
            return Ok((meta, reader.tell() + 5));
        }
        if tag == Tag(0x56, 0x50, 0x38, 0x58) {
            let meta = extended_record(reader.rest(), length, frames)?;
            assert(reader.position() + 10 <= bytes@.len() == bytes.len());
            return Ok((meta, reader.tell() + 10));
        }
        let even: u32 = if length % 2 == 1 && length < left - 8 {
            length + 1
        } else {
            length
        };
        reader.skip(even as usize);
        left = left - 8 - even;
        if tag == Tag(0x41, 0x4e, 0x4d, 0x46) {
            frames = frames + 1;
        }
    }
}

/// The frame count to report; see `frame_count`.
fn count_frames(announced: bool, frames: usize) -> (r: Option<usize>)
    ensures
        r == frame_count(announced, frames as nat),
{
    if announced || frames > 0 {
        Some(frames)
    } else {
        None
    }
}

/// Interprets the start of a lossy bitstream chunk's payload.
pub fn lossy_record(payload: &[u8], length: u32, frames: usize) -> (r: Result<
    ImageMeta,
    ImageError,
>)
    ensures
        r == lossy(payload@, length as nat, frames as nat),
{
    if length < 10 {
        return Err(
            ImageError::CorruptImage(
                Corruption::ChunkTooShort(Tag(0x56, 0x50, 0x38, 0x20), length),
            ),
        );
    }
    let mut fields = Reader::new(payload);
    assert(fields.remaining() =~= payload@);
    let head = fields.read_exact(10)?;
    let mut fields = Reader::new(head);
    assert(fields.remaining() =~= head@);
    fields.skip(3);
    let code = fields.read_exact(3)?;
    let w = fields.read_u16_le()?;
    let h = fields.read_u16_le()?;
    if !(code[0] == 0x9d && code[1] == 0x01 && code[2] == 0x2a) {
        return Err(ImageError::CorruptImage(Corruption::InvalidStartCode));
    }
    proof {
        assert(le_u16(head@.skip(6)) == le_u16(payload@.skip(6)));
        assert(le_u16(head@.skip(8)) == le_u16(payload@.skip(8)));
        assert(w & 0x3fff == w % 0x4000) by (bit_vector);
        assert(h & 0x3fff == h % 0x4000) by (bit_vector);
    }
    Ok(
        ImageMeta {
            animation_frames: count_frames(false, frames),
            color: Color { mode: ColorMode::Rgb, alpha_channel: false, resolution: 8 },
            dimensions: Dimensions { width: (w & 0x3fff) as u32, height: (h & 0x3fff) as u32 },
            format: Format::Webp,
        },
    )
}

/// Interprets the start of a lossless bitstream chunk's payload.
pub fn lossless_record(payload: &[u8], length: u32, frames: usize) -> (r: Result<
    ImageMeta,
    ImageError,
>)
    ensures
        r == lossless(payload@, length as nat, frames as nat),
{
    if length < 5 {
        return Err(
            ImageError::CorruptImage(
                Corruption::ChunkTooShort(Tag(0x56, 0x50, 0x38, 0x4c), length),
            ),
        );
    }
    let mut fields = Reader::new(payload);
    assert(fields.remaining() =~= payload@);
    let head = fields.read_exact(5)?;
    let mut fields = Reader::new(head);
    assert(fields.remaining() =~= head@);
    let mark = fields.read_u8()?;
    let bits = fields.read_u32_le()?;
    if mark != 0x2f {
        return Err(ImageError::CorruptImage(Corruption::InvalidLosslessSignature(mark)));
    }
    proof {
        assert(le_u32(head@.skip(1)) == le_u32(payload@.skip(1)));
        assert(bits & 0x3fff == bits % 0x4000) by (bit_vector);
        assert((bits >> 14) & 0x3fff == (bits / 0x4000) % 0x4000) by (bit_vector);
        assert((bits >> 28) & 1 == (bits / 0x1000_0000) % 2) by (bit_vector);
        assert(bits & 0x3fff <= 0x3fff) by (bit_vector);
        assert((bits >> 14) & 0x3fff <= 0x3fff) by (bit_vector);
    }
    Ok(
        ImageMeta {
            animation_frames: count_frames(false, frames),
            color: Color {
                mode: ColorMode::Rgb,
                alpha_channel: (bits >> 28) & 1 == 1,
                resolution: 8,
            },
            dimensions: Dimensions {
                width: (bits & 0x3fff) + 1,
                height: ((bits >> 14) & 0x3fff) + 1,
            },
            format: Format::Webp,
        },
    )
}

/// Interprets the start of an extended header chunk's payload.
pub fn extended_record(payload: &[u8], length: u32, frames: usize) -> (r: Result<
    ImageMeta,
    ImageError,
>)
    ensures
        r == extended(payload@, length as nat, frames as nat),
{
    if length < 10 {
        return Err(
            ImageError::CorruptImage(
                Corruption::ChunkTooShort(Tag(0x56, 0x50, 0x38, 0x58), length),
            ),
        );
    }
    let mut fields = Reader::new(payload);
    assert(fields.remaining() =~= payload@);
    let head = fields.read_exact(10)?;
    let mut fields = Reader::new(head);
    assert(fields.remaining() =~= head@);
    let flags = fields.read_u8()?;
    fields.skip(3);
    let w = fields.read_u24_le()?;
    let h = fields.read_u24_le()?;
    proof {
        assert(le_u24(head@.skip(4)) == le_u24(payload@.skip(4)));
        assert(le_u24(head@.skip(7)) == le_u24(payload@.skip(7)));
        assert((flags & 0x10 != 0) == ((flags / 0x10) % 2 == 1)) by (bit_vector);
        assert((flags & 0x02 != 0) == ((flags / 0x02) % 2 == 1)) by (bit_vector);
    }
    Ok(
        ImageMeta {
            animation_frames: count_frames(flags & 0x02 != 0, frames),
            color: Color { mode: ColorMode::Rgb, alpha_channel: flags & 0x10 != 0, resolution: 8 },
            dimensions: Dimensions { width: w + 1, height: h + 1 },
            format: Format::Webp,
        },
    )
}

} // verus!
