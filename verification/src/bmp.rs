use crate::bytes::{le_u16, le_u32};
use crate::errors::{Corruption, ImageError};
use crate::reader::Reader;
use crate::types::{Color, ColorMode, Dimensions, Format, ImageMeta};
use vstd::prelude::*;

verus! {

/// The colour model of a bitmap with this many bits per pixel; `None` for
/// a count that the format does not define. Up to eight bits a pixel is an
/// index into a palette; above, it holds the samples themselves.
pub open spec fn color_of(bit_count: int) -> Option<Color> {
    if bit_count == 1 || bit_count == 4 || bit_count == 8 {
        Some(
            Color { mode: ColorMode::Indexed, alpha_channel: false, resolution: bit_count as u8 },
        )
    } else if bit_count == 16 {
        Some(Color { mode: ColorMode::Rgb, alpha_channel: false, resolution: 5 })
    } else if bit_count == 24 {
        Some(Color { mode: ColorMode::Rgb, alpha_channel: false, resolution: 8 })
    } else if bit_count == 32 {
        Some(Color { mode: ColorMode::Rgb, alpha_channel: true, resolution: 8 })
    } else {
        None
    }
}

/// The metadata of a bitmap of this size and with this many bits per pixel.
pub open spec fn meta(width: int, height: int, bit_count: int) -> Result<ImageMeta, ImageError> {
    match color_of(bit_count) {
        Some(color) => Ok(
            ImageMeta {
                animation_frames: None,
                color,
                dimensions: Dimensions { width: width as u32, height: height as u32 },
                format: Format::Bmp,
            },
        ),
        None => Err(ImageError::CorruptImage(Corruption::InvalidBitCount(bit_count as u16))),
    }
}

/// The absolute value of the signed number that the four bytes of the
/// unsigned number `raw` spell in two's complement.
pub open spec fn magnitude(raw: int) -> int {
    if raw < 0x8000_0000 {
        raw
    } else {
        0x1_0000_0000 - raw
    }
}

/// What the core header, the oldest form of the information header, says
/// of the image. `fields` starts behind the header's size field: width,
/// height, planes and bit count, two bytes each.
pub open spec fn core_header(fields: Seq<u8>) -> Result<ImageMeta, ImageError> {
    if fields.len() < 8 {
        Err(ImageError::UnexpectedEof)
    } else {
        meta(le_u16(fields), le_u16(fields.skip(2)), le_u16(fields.skip(6)))
    }
}

/// What an information header of the later forms says of the image.
/// `fields` starts behind the header's size field: width and height, four
/// bytes each and signed, then planes and bit count, two bytes each. A
/// negative height tells that the rows run from the top down.
pub open spec fn info_header(fields: Seq<u8>) -> Result<ImageMeta, ImageError> {
    if fields.len() < 12 {
        Err(ImageError::UnexpectedEof)
    } else if le_u32(fields) >= 0x8000_0000 {
        Err(ImageError::CorruptImage(Corruption::NegativeWidth(le_u32(fields) as u32)))
    } else {
        meta(le_u32(fields), magnitude(le_u32(fields.skip(4))), le_u16(fields.skip(10)))
    }
}

/// What the headers that start at `bytes`, behind the signature, say of
/// the image: twelve bytes of the file header that are passed over, the
/// size of the information header, and that header's fields.
pub open spec fn header(bytes: Seq<u8>) -> Result<ImageMeta, ImageError> {
    if bytes.len() < 16 {
        Err(ImageError::UnexpectedEof)
    } else if le_u32(bytes.skip(12)) == 12 {
        core_header(bytes.skip(16))
    } else if le_u32(bytes.skip(12)) >= 16 {
        info_header(bytes.skip(16))
    } else {
        Err(
            ImageError::CorruptImage(
                Corruption::InvalidHeaderSize(le_u32(bytes.skip(12)) as u32),
            ),
        )
    }
}

/// The metadata of the BMP stream `bytes`, or the reason why it has none.
/// The stream begins with the letters `BM`.
pub open spec fn decode(bytes: Seq<u8>) -> Result<ImageMeta, ImageError> {
    if bytes.len() < 2 {
        Err(ImageError::UnexpectedEof)
    } else if !(bytes[0] == 0x42 && bytes[1] == 0x4d) {
        Err(ImageError::InvalidSignature)
    } else {
        header(bytes.skip(2))
    }
}

/// Growing a stream changes no verdict but "not enough data": a leading part
/// of a stream is either too short to decide, or decoded exactly as the
/// whole stream is.
pub proof fn lemma_prefix_verdict(prefix: Seq<u8>, full: Seq<u8>)
    requires
        prefix.is_prefix_of(full),
    ensures
        decode(prefix) == Err::<ImageMeta, ImageError>(ImageError::UnexpectedEof) || decode(prefix)
            == decode(full),
{
    if prefix.len() >= 2 {
        assert(prefix[0] == full[0] && prefix[1] == full[1]);
        let p = prefix.skip(2);
        let f = full.skip(2);
        assert(p.is_prefix_of(f));
        if p.len() >= 16 {
            assert(le_u32(p.skip(12)) == le_u32(f.skip(12)));
            let pf = p.skip(16);
            let ff = f.skip(16);
            assert(pf.is_prefix_of(ff));
            if pf.len() >= 8 {
                assert(le_u16(pf) == le_u16(ff));
                assert(le_u16(pf.skip(2)) == le_u16(ff.skip(2)));
                assert(le_u16(pf.skip(6)) == le_u16(ff.skip(6)));
            }
            if pf.len() >= 12 {
                assert(le_u32(pf) == le_u32(ff));
                assert(le_u32(pf.skip(4)) == le_u32(ff.skip(4)));
                assert(le_u16(pf.skip(10)) == le_u16(ff.skip(10)));
            }
        }
    }
}

/// The number of bytes from the start of the headers `bytes`, behind the
/// signature, to the end of the last field that is read: 24 with a core
/// header, 28 with any other.
pub open spec fn header_span(bytes: Seq<u8>) -> nat
    recommends
        bytes.len() >= 16,
{
    if le_u32(bytes.skip(12)) == 12 {
        24
    } else {
        28
    }
}

/// The number of bytes that decoding the stream `bytes` passes over: the
/// signature and the headers up to the bit count where it succeeds, none
/// where it fails.
pub open spec fn consumed(bytes: Seq<u8>) -> nat {
    if decode(bytes) is Ok {
        2 + header_span(bytes.skip(2))
    } else {
        0
    }
}

/// Once a leading part of a stream has a verdict other than "not enough
/// data", the decoder passes as many bytes on the whole stream as on that
/// part.
pub proof fn lemma_prefix_consumed(prefix: Seq<u8>, full: Seq<u8>)
    requires
        prefix.is_prefix_of(full),
        decode(prefix) != Err::<ImageMeta, ImageError>(ImageError::UnexpectedEof),
    ensures
        consumed(full) == consumed(prefix),
{
    lemma_prefix_verdict(prefix, full);
    if decode(prefix) is Ok {
        assert(prefix.skip(2).is_prefix_of(full.skip(2)));
        assert(le_u32(prefix.skip(2).skip(12)) == le_u32(full.skip(2).skip(12)));
    }
}

/// Reads the metadata of a BMP stream from its leading bytes.
pub fn load(image: &[u8]) -> (r: Result<ImageMeta, ImageError>)
    ensures
        r == decode(image@),
{
    let mut reader = Reader::new(image);
    assert(reader.remaining() =~= image@);
    load_from(&mut reader)
}

/// Reads the metadata of the BMP stream that starts at the cursor. On
/// success the cursor is left behind the bit count; on failure it stays
/// where it was.
pub fn load_from(image: &mut Reader) -> (r: Result<ImageMeta, ImageError>)
    ensures
        final(image).source() == old(image).source(),
        r == decode(old(image).remaining()),
        final(image).position() == old(image).position() + consumed(old(image).remaining()),
{
    let mut fields = Reader::new(image.rest());
    assert(fields.remaining() =~= image.remaining());
    read_signature(&mut fields)?;
    let (meta, span) = read_header(fields.rest())?;
    image.skip(2 + span);
    Ok(meta)
}

/// Reads two bytes and tells whether they are the signature.
pub fn read_signature(image: &mut Reader) -> (r: Result<(), ImageError>)
    ensures
        final(image).source() == old(image).source(),
        match r {
            Ok(_) => {
                &&& old(image).remaining().len() >= 2
                &&& old(image).remaining()[0] == 0x42
                &&& old(image).remaining()[1] == 0x4d
                &&& final(image).position() == old(image).position() + 2
                &&& final(image).remaining() == old(image).remaining().skip(2)
            },
            Err(ImageError::UnexpectedEof) => {
                &&& old(image).remaining().len() < 2
                &&& *final(image) == *old(image)
            },
            Err(e) => {
                &&& e == ImageError::InvalidSignature
                &&& old(image).remaining().len() >= 2
                &&& !(old(image).remaining()[0] == 0x42 && old(image).remaining()[1] == 0x4d)
                &&& final(image).position() == old(image).position() + 2
            },
        },
{
    let s = image.read_exact(2)?;
    if s[0] == 0x42 && s[1] == 0x4d {
        Ok(())
    } else {
        Err(ImageError::InvalidSignature)
    }
}

/// Interprets the headers at the start of `bytes`, which follow the
/// signature. With the metadata comes the number of bytes up to the end of
/// the last field read.
pub fn read_header(bytes: &[u8]) -> (r: Result<(ImageMeta, usize), ImageError>)
    ensures
        match r {
            Ok((meta, span)) => {
                &&& header(bytes@) == Ok::<ImageMeta, ImageError>(meta)
                &&& span == header_span(bytes@)
                &&& span <= bytes@.len()
            },
            Err(e) => header(bytes@) == Err::<ImageMeta, ImageError>(e),
        },
{
    let mut reader = Reader::new(bytes);
    assert(reader.remaining() =~= bytes@);
    let head = reader.read_exact(16)?;
    let mut fields = Reader::new(head);
    assert(fields.remaining() =~= head@);
    fields.skip(12);
    let size = fields.read_u32_le()?;
    assert(size == le_u32(bytes@.skip(12))) by {
        assert(le_u32(head@.skip(12)) == le_u32(bytes@.skip(12)));
    }
    if size == 12 {
        let meta = read_core_header(reader.rest())?;
        Ok((meta, 24))
    } else if size >= 16 {
        let meta = read_info_header(reader.rest())?;
        Ok((meta, 28))
    } else {
        Err(ImageError::CorruptImage(Corruption::InvalidHeaderSize(size)))
    }
}

/// Puts the metadata together, or rejects the bit count.
pub fn describe(width: u32, height: u32, bit_count: u16) -> (r: Result<ImageMeta, ImageError>)
    ensures
        r == meta(width as int, height as int, bit_count as int),
{
    let color = match bit_count {
        1 | 4 | 8 => Color {
            mode: ColorMode::Indexed,
            alpha_channel: false,
            resolution: bit_count as u8,
        },
        16 => Color { mode: ColorMode::Rgb, alpha_channel: false, resolution: 5 },
        24 => Color { mode: ColorMode::Rgb, alpha_channel: false, resolution: 8 },
        32 => Color { mode: ColorMode::Rgb, alpha_channel: true, resolution: 8 },
        _ => { return Err(ImageError::CorruptImage(Corruption::InvalidBitCount(bit_count))); },
    };
    Ok(
        ImageMeta {
            animation_frames: None,
            color,
            dimensions: Dimensions { width, height },
            format: Format::Bmp,
        },
    )
}

/// Interprets the fields of a core header at the start of `bytes`.
pub fn read_core_header(bytes: &[u8]) -> (r: Result<ImageMeta, ImageError>)
    ensures
        r == core_header(bytes@),
{
    let mut reader = Reader::new(bytes);
    assert(reader.remaining() =~= bytes@);
    let record = reader.read_exact(8)?;
    let mut fields = Reader::new(record);
    assert(fields.remaining() =~= record@);
    let width = fields.read_u16_le()?;
    let height = fields.read_u16_le()?;
    fields.skip(2);
    let bit_count = fields.read_u16_le()?;
    proof {
        assert(le_u16(record@) == le_u16(bytes@));
        assert(le_u16(record@.skip(2)) == le_u16(bytes@.skip(2)));
        assert(le_u16(record@.skip(6)) == le_u16(bytes@.skip(6)));
    }
    describe(width as u32, height as u32, bit_count)
}

/// Interprets the fields of an information header at the start of `bytes`.
pub fn read_info_header(bytes: &[u8]) -> (r: Result<ImageMeta, ImageError>)
    ensures
        r == info_header(bytes@),
{
    let mut reader = Reader::new(bytes);
    assert(reader.remaining() =~= bytes@);
    let record = reader.read_exact(12)?;
    let mut fields = Reader::new(record);
    assert(fields.remaining() =~= record@);
    let width = fields.read_u32_le()?;
    let height = fields.read_u32_le()?;
    fields.skip(2);
    let bit_count = fields.read_u16_le()?;
    proof {
        assert(le_u32(record@) == le_u32(bytes@));
        assert(le_u32(record@.skip(4)) == le_u32(bytes@.skip(4)));
        assert(le_u16(record@.skip(10)) == le_u16(bytes@.skip(10)));
    }
    if width >= 0x8000_0000 {
        return Err(ImageError::CorruptImage(Corruption::NegativeWidth(width)));
    }
    let rows: u32 = if height < 0x8000_0000 {
        height
    } else {
        (0xffff_ffff - height) + 1
    };
    describe(width, rows, bit_count)
}

} // verus!
