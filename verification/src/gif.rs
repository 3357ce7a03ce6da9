use crate::bytes::le_u16;
use crate::errors::ImageError;
use crate::reader::Reader;
use crate::types::{Color, ColorMode, Dimensions, Format, ImageMeta};
use vstd::prelude::*;

verus! {

/// Whether `bytes` begins with `GIF87a` or `GIF89a`.
pub open spec fn has_signature(bytes: Seq<u8>) -> bool
    recommends
        bytes.len() >= 6,
{
    &&& bytes[0] == 0x47
    &&& bytes[1] == 0x49
    &&& bytes[2] == 0x46
    &&& bytes[3] == 0x38
    &&& (bytes[4] == 0x37 || bytes[4] == 0x39)
    &&& bytes[5] == 0x61
}

/// The bits per sample that the packed byte of a screen descriptor
/// declares: its bits 4 to 6, plus one.
pub open spec fn resolution_of(packed: u8) -> u8 {
    ((packed as int / 0x10) % 8 + 1) as u8
}

/// What the logical screen descriptor at the start of `bytes` says of the
/// image. It has seven bytes: width, height, the packed byte, the
/// background colour and the aspect ratio.
pub open spec fn descriptor(bytes: Seq<u8>) -> Result<ImageMeta, ImageError> {
    if bytes.len() < 7 {
        Err(ImageError::UnexpectedEof)
    } else {
        Ok(
            ImageMeta {
                animation_frames: None,
                color: Color {
                    mode: ColorMode::Indexed,
                    alpha_channel: false,
                    resolution: resolution_of(bytes[4]),
                },
                dimensions: Dimensions {
                    width: le_u16(bytes) as u32,
                    height: le_u16(bytes.skip(2)) as u32,
                },
                format: Format::Gif,
            },
        )
    }
}

/// The metadata of the GIF stream `bytes`, or the reason why it has none.
pub open spec fn decode(bytes: Seq<u8>) -> Result<ImageMeta, ImageError> {
    if bytes.len() < 6 {
        Err(ImageError::UnexpectedEof)
    } else if !has_signature(bytes) {
        Err(ImageError::InvalidSignature)
    } else {
        descriptor(bytes.skip(6))
    }
}

/// Growing a stream changes no verdict but "not enough data": a leading part
/// of a stream is either too short to decide, or decoded exactly as the
/// whole stream is.
pub proof fn lemma_prefix_verdict(prefix: Seq<u8>, full: Seq<u8>)
    requires
        prefix.is_prefix_of(full),
    ensures
        decode(prefix) == Err::<ImageMeta, ImageError>(ImageError::UnexpectedEof) || decode(prefix)
            == decode(full),
{
    if prefix.len() >= 6 {
        assert(has_signature(prefix) == has_signature(full));
        let p = prefix.skip(6);
        let f = full.skip(6);
        assert(p.is_prefix_of(f));
        if p.len() >= 7 {
            assert(le_u16(p) == le_u16(f));
            assert(le_u16(p.skip(2)) == le_u16(f.skip(2)));
            assert(p[4] == f[4]);
        }
    }
}

/// The number of bytes that decoding the stream `bytes` passes over: the
/// signature and the screen descriptor where it succeeds, none where it
/// fails.
pub open spec fn consumed(bytes: Seq<u8>) -> nat {
    if decode(bytes) is Ok {
        13
    } else {
        0
    }
}

/// Once a leading part of a stream has a verdict other than "not enough
/// data", the decoder passes as many bytes on the whole stream as on that
/// part.
pub proof fn lemma_prefix_consumed(prefix: Seq<u8>, full: Seq<u8>)
    requires
        prefix.is_prefix_of(full),
        decode(prefix) != Err::<ImageMeta, ImageError>(ImageError::UnexpectedEof),
    ensures
        consumed(full) == consumed(prefix),
{
    lemma_prefix_verdict(prefix, full);
}

/// Reads the metadata of a GIF stream from its leading bytes. Frames of an
/// animated stream are not counted.
pub fn load(image: &[u8]) -> (r: Result<ImageMeta, ImageError>)
    ensures
        r == decode(image@),
{
    let mut reader = Reader::new(image);
    assert(reader.remaining() =~= image@);
    load_from(&mut reader)
}

/// Reads the metadata of the GIF stream that starts at the cursor. On
/// success the cursor is left behind the screen descriptor; on failure it
/// stays where it was.
pub fn load_from(image: &mut Reader) -> (r: Result<ImageMeta, ImageError>)
    ensures
        final(image).source() == old(image).source(),
        r == decode(old(image).remaining()),
        final(image).position() == old(image).position() + consumed(old(image).remaining()),
{
    let mut fields = Reader::new(image.rest());
    assert(fields.remaining() =~= image.remaining());
    read_signature(&mut fields)?;
    let meta = read_descriptor(&mut fields)?;
    image.skip(13);
    Ok(meta)
}

/// Reads six bytes and tells whether they are a signature of the format.
pub fn read_signature(image: &mut Reader) -> (r: Result<(), ImageError>)
    ensures
        final(image).source() == old(image).source(),
        match r {
            Ok(_) => {
                &&& old(image).remaining().len() >= 6
                &&& has_signature(old(image).remaining())
                &&& final(image).position() == old(image).position() + 6
                &&& final(image).remaining() == old(image).remaining().skip(6)
            },
            Err(ImageError::UnexpectedEof) => {
                &&& old(image).remaining().len() < 6
                &&& *final(image) == *old(image)
            },
            Err(e) => {
                &&& e == ImageError::InvalidSignature
                &&& old(image).remaining().len() >= 6
                &&& !has_signature(old(image).remaining())
                &&& final(image).position() == old(image).position() + 6
            },
        },
{
    let s = image.read_exact(6)?;
    if s[0] == 0x47 && s[1] == 0x49 && s[2] == 0x46 && s[3] == 0x38 && (s[4] == 0x37 || s[4]
        == 0x39) && s[5] == 0x61 {
        Ok(())
    } else {
        Err(ImageError::InvalidSignature)
    }
}

/// Reads the logical screen descriptor.
pub fn read_descriptor(image: &mut Reader) -> (r: Result<ImageMeta, ImageError>)
    ensures
        final(image).source() == old(image).source(),
        r == descriptor(old(image).remaining()),
        r is Ok ==> final(image).position() == old(image).position() + 7,
        r is Err ==> *final(image) == *old(image),
{
    let record = image.read_exact(7)?;
    let mut fields = Reader::new(record);
    assert(fields.remaining() =~= record@);
    let width = fields.read_u16_le()?;
    let height = fields.read_u16_le()?;
    let packed = fields.read_u8()?;
    proof {
        let rem = old(image).remaining();
        assert(le_u16(record@) == le_u16(rem));
        assert(le_u16(record@.skip(2)) == le_u16(rem.skip(2)));
        assert(packed == rem[4]);
        assert(((packed >> 4) & 7) + 1 == (packed as int / 0x10) % 8 + 1) by (bit_vector);
    }
    Ok(
        ImageMeta {
            animation_frames: None,
            color: Color {
                mode: ColorMode::Indexed,
                alpha_channel: false,
                resolution: ((packed >> 4) & 7) + 1,
            },
            dimensions: Dimensions { width: width as u32, height: height as u32 },
            format: Format::Gif,
        },
    )
}

} // verus!
