use crate::bytes::be_u16;
use crate::errors::{Corruption, ImageError};
use crate::reader::{passed, Reader};
use crate::types::{Color, ColorMode, Dimensions, Format, ImageMeta};
use vstd::prelude::*;

verus! {

/// Whether the marker with this code opens a frame header, which carries
/// the dimensions: the codes `c0` to `cf` but for `c4`, `c8` and `cc`.
pub open spec fn is_frame_header(code: u8) -> bool {
    0xc0 <= code <= 0xcf && code != 0xc4 && code != 0xc8 && code != 0xcc
}

/// Whether the marker with this code stands alone, with no segment after
/// it: `01`, and `d0` to `d8`.
pub open spec fn is_standalone(code: u8) -> bool {
    code == 0x01 || 0xd0 <= code <= 0xd8
}

/// Whether the marker with this code ends the headers: the end of the
/// image, `d9`, and the start of a scan, `da`.
pub open spec fn ends_headers(code: u8) -> bool {
    code == 0xd9 || code == 0xda
}

/// Whether the marker with this code opens the frame header of a lossless
/// process: `c3`, `c7`, `cb` and `cf`.
pub open spec fn is_lossless(code: u8) -> bool {
    code == 0xc3 || code == 0xc7 || code == 0xcb || code == 0xcf
}

/// Whether the process of the frame header marker `code` permits samples
/// of `precision` bits: 8 for the baseline process, `c0`; 2 to 16 for the
/// lossless processes; 8 or 12 for every other process.
pub open spec fn precision_permitted(code: u8, precision: u8) -> bool {
    if code == 0xc0 {
        precision == 8
    } else if is_lossless(code) {
        2 <= precision <= 16
    } else {
        precision == 8 || precision == 12
    }
}

/// The colour mode of a frame with this many components.
pub open spec fn mode_of(components: u8) -> Option<ColorMode> {
    if components == 1 {
        Some(ColorMode::Grayscale)
    } else if components == 3 {
        Some(ColorMode::Rgb)
    } else if components == 4 {
        Some(ColorMode::Cmyk)
    } else {
        None
    }
}

/// What the frame header segment that starts at `bytes`, behind the marker
/// with the code `code`, says of the image: after the segment's length come
/// the sample precision, the height, the width and the number of components.
/// The precision is judged before the number of components.
pub open spec fn frame(bytes: Seq<u8>, code: u8) -> Result<ImageMeta, ImageError> {
    if bytes.len() < 2 {
        Err(ImageError::UnexpectedEof)
    } else if be_u16(bytes) < 8 {
        Err(ImageError::CorruptImage(Corruption::InvalidSegmentLength(code, be_u16(bytes) as u16)))
    } else if bytes.len() < 8 {
        Err(ImageError::UnexpectedEof)
    } else if !precision_permitted(code, bytes[2]) {
        Err(ImageError::CorruptImage(Corruption::InvalidPrecision(code, bytes[2])))
    } else {
        match mode_of(bytes[7]) {
            Some(mode) => Ok(
                ImageMeta {
                    animation_frames: None,
                    color: Color { mode, alpha_channel: false, resolution: bytes[2] },
                    dimensions: Dimensions {
                        width: be_u16(bytes.skip(5)) as u32,
                        height: be_u16(bytes.skip(3)) as u32,
                    },
                    format: Format::Jpeg,
                },
            ),
            None => Err(ImageError::CorruptImage(Corruption::InvalidComponentCount(bytes[7]))),
        }
    }
}

/// What the markers that start at `bytes` say of the image. The first
/// frame header decides. A segment of any other kind is passed over by its
/// declared length, a marker that stands alone by its two bytes, and an
/// `ff` before a marker as a fill byte.
pub open spec fn scan(bytes: Seq<u8>) -> Result<ImageMeta, ImageError>
    decreases bytes.len(),
{
    if bytes.len() < 2 {
        Err(ImageError::UnexpectedEof)
    } else if bytes[0] != 0xff {
        Err(ImageError::CorruptImage(Corruption::NotAMarker(bytes[0])))
    } else if bytes[1] == 0xff {
        scan(bytes.skip(1))
    } else if bytes[1] == 0x00 {
        Err(ImageError::CorruptImage(Corruption::InvalidMarker))
    } else if is_standalone(bytes[1]) {
        scan(bytes.skip(2))
    } else if ends_headers(bytes[1]) {
        Err(ImageError::CorruptImage(Corruption::MissingFrameHeader(bytes[1])))
    } else if is_frame_header(bytes[1]) {
        frame(bytes.skip(2), bytes[1])
    } else if bytes.len() < 4 {
        Err(ImageError::UnexpectedEof)
    } else if be_u16(bytes.skip(2)) < 2 {
        Err(
            ImageError::CorruptImage(
                Corruption::InvalidSegmentLength(bytes[1], be_u16(bytes.skip(2)) as u16),
            ),
        )
    } else {
        scan(bytes.skip(2).skip(passed(bytes.skip(2), be_u16(bytes.skip(2)) as nat) as int))
    }
}

/// The number of bytes from the start of `bytes` to the end of the fields
/// that are read of the first frame header, where the marker walk finds
/// one: what the walk passes on its way, the marker of the frame header,
/// and eight bytes of its segment.
pub open spec fn scan_span(bytes: Seq<u8>) -> nat
    decreases bytes.len(),
{
    if bytes.len() < 2 || bytes[0] != 0xff {
        0
    } else if bytes[1] == 0xff {
        1 + scan_span(bytes.skip(1))
    } else if bytes[1] == 0x00 {
        0
    } else if is_standalone(bytes[1]) {
        2 + scan_span(bytes.skip(2))
    } else if ends_headers(bytes[1]) {
        0
    } else if is_frame_header(bytes[1]) {
        10
    } else if bytes.len() < 4 || be_u16(bytes.skip(2)) < 2 {
        0
    } else {
        2 + passed(bytes.skip(2), be_u16(bytes.skip(2)) as nat) + scan_span(
            bytes.skip(2).skip(passed(bytes.skip(2), be_u16(bytes.skip(2)) as nat) as int),
        )
    }
}

/// The number of bytes that decoding the stream `bytes` passes over: up to
/// the end of the fields read of the frame header where it succeeds, none
/// where it fails.
pub open spec fn consumed(bytes: Seq<u8>) -> nat {
    if decode(bytes) is Ok {
        2 + scan_span(bytes.skip(2))
    } else {
        0
    }
}

/// The metadata of the JPEG stream `bytes`, or the reason why it has none.
/// The stream begins with the marker `ff d8`.
pub open spec fn decode(bytes: Seq<u8>) -> Result<ImageMeta, ImageError> {
    if bytes.len() < 2 {
        Err(ImageError::UnexpectedEof)
    } else if !(bytes[0] == 0xff && bytes[1] == 0xd8) {
        Err(ImageError::InvalidSignature)
    } else {
        scan(bytes.skip(2))
    }
}

/// Growing the bytes changes no verdict of the marker walk but "not enough
/// data".
pub proof fn lemma_scan_prefix(prefix: Seq<u8>, full: Seq<u8>)
    requires
        prefix.is_prefix_of(full),
    ensures
        scan(prefix) == Err::<ImageMeta, ImageError>(ImageError::UnexpectedEof) || scan(prefix)
            == scan(full),
    decreases prefix.len(),
{
    if prefix.len() >= 2 && prefix[0] == 0xff {
        let code = prefix[1];
        assert(full[0] == prefix[0] && full[1] == prefix[1]);
        let p = prefix.skip(2);
        let f = full.skip(2);
        assert(p.is_prefix_of(f));
        if code == 0xff {
            assert(prefix.skip(1).is_prefix_of(full.skip(1)));
            lemma_scan_prefix(prefix.skip(1), full.skip(1));
        } else if code == 0x00 {
        } else if is_standalone(code) {
            lemma_scan_prefix(p, f);
        } else if ends_headers(code) {
        } else if is_frame_header(code) {
            if p.len() >= 2 {
                assert(be_u16(p) == be_u16(f));
            }
            if p.len() >= 8 {
                assert(be_u16(p.skip(3)) == be_u16(f.skip(3)));
                assert(be_u16(p.skip(5)) == be_u16(f.skip(5)));
                assert(p[2] == f[2] && p[7] == f[7]);
            }
        } else if prefix.len() >= 4 {
            let length = be_u16(p) as nat;
            assert(be_u16(p) == be_u16(f));
            let p_next = p.skip(passed(p, length) as int);
            let f_next = f.skip(passed(f, length) as int);
            if length >= 2 {
                if passed(p, length) != passed(f, length) {
                    assert(p_next.len() == 0);
                }
                assert(p_next.is_prefix_of(f_next));
                lemma_scan_prefix(p_next, f_next);
            }
        }
    }
}

/// Whatever the marker walk finds is a JPEG image without alpha channel and
/// without animation frames.
pub proof fn lemma_scan_result(bytes: Seq<u8>)
    requires
        scan(bytes) is Ok,
    ensures
        scan(bytes).unwrap().format == Format::Jpeg,
        scan(bytes).unwrap().animation_frames is None,
        !scan(bytes).unwrap().color.alpha_channel,
    decreases bytes.len(),
{
    if bytes[1] == 0xff {
        lemma_scan_result(bytes.skip(1));
    } else if is_standalone(bytes[1]) {
        lemma_scan_result(bytes.skip(2));
    } else if is_frame_header(bytes[1]) {
    } else {
        let rest = bytes.skip(2);
        lemma_scan_result(rest.skip(passed(rest, be_u16(rest) as nat) as int));
    }
}

/// Whatever the marker walk finds has a sample precision that some coding
/// process permits, two to sixteen bits, and no colour mode but those that
/// go with one, three or four components.
pub proof fn lemma_scan_color(bytes: Seq<u8>)
    requires
        scan(bytes) is Ok,
    ensures
        2 <= scan(bytes).unwrap().color.resolution <= 16,
        scan(bytes).unwrap().color.mode != ColorMode::Indexed,
    decreases bytes.len(),
{
    if bytes[1] == 0xff {
        lemma_scan_color(bytes.skip(1));
    } else if is_standalone(bytes[1]) {
        lemma_scan_color(bytes.skip(2));
    } else if is_frame_header(bytes[1]) {
    } else {
        let rest = bytes.skip(2);
        lemma_scan_color(rest.skip(passed(rest, be_u16(rest) as nat) as int));
    }
}

/// The marker walk never answers that the format is unsupported.
pub proof fn lemma_scan_supported(bytes: Seq<u8>)
    ensures
        scan(bytes) != Err::<ImageMeta, ImageError>(ImageError::UnsupportedFormat),
    decreases bytes.len(),
{
    if bytes.len() >= 2 && bytes[0] == 0xff {
        if bytes[1] == 0xff {
            lemma_scan_supported(bytes.skip(1));
        } else if bytes[1] == 0x00 {
        } else if is_standalone(bytes[1]) {
            lemma_scan_supported(bytes.skip(2));
        } else if ends_headers(bytes[1]) {
        } else if is_frame_header(bytes[1]) {
        } else if bytes.len() >= 4 && be_u16(bytes.skip(2)) >= 2 {
            let rest = bytes.skip(2);
            lemma_scan_supported(rest.skip(passed(rest, be_u16(rest) as nat) as int));
        }
    }
}

/// A marker walk that finds a frame header has read ten bytes at least.
pub proof fn lemma_scan_needs(bytes: Seq<u8>)
    requires
        scan(bytes) is Ok,
    ensures
        bytes.len() >= 10,
    decreases bytes.len(),
{
    if bytes[1] == 0xff {
        lemma_scan_needs(bytes.skip(1));
    } else if is_standalone(bytes[1]) {
        lemma_scan_needs(bytes.skip(2));
    } else if is_frame_header(bytes[1]) {
    } else {
        let rest = bytes.skip(2);
        lemma_scan_needs(rest.skip(passed(rest, be_u16(rest) as nat) as int));
    }
}

/// Growing a stream changes no verdict but "not enough data": a leading part
/// of a stream is either too short to decide, or decoded exactly as the
/// whole stream is.
pub proof fn lemma_prefix_verdict(prefix: Seq<u8>, full: Seq<u8>)
    requires
        prefix.is_prefix_of(full),
    ensures
        decode(prefix) == Err::<ImageMeta, ImageError>(ImageError::UnexpectedEof) || decode(prefix)
            == decode(full),
{
    if prefix.len() >= 2 {
        assert(full[0] == prefix[0] && full[1] == prefix[1]);
        assert(prefix.skip(2).is_prefix_of(full.skip(2)));
        lemma_scan_prefix(prefix.skip(2), full.skip(2));
    }
}

/// Where the marker walk finds a frame header in a leading part of the
/// bytes, it passes as many bytes on the whole.
pub proof fn lemma_span_prefix(prefix: Seq<u8>, full: Seq<u8>)
    requires
        prefix.is_prefix_of(full),
        scan(prefix) is Ok,
    ensures
        scan_span(full) == scan_span(prefix),
    decreases prefix.len(),
{
    let code = prefix[1];
    assert(full[0] == prefix[0] && full[1] == prefix[1]);
    let p = prefix.skip(2);
    let f = full.skip(2);
    assert(p.is_prefix_of(f));
    if code == 0xff {
        assert(prefix.skip(1).is_prefix_of(full.skip(1)));
        lemma_span_prefix(prefix.skip(1), full.skip(1));
    } else if is_standalone(code) {
        lemma_span_prefix(p, f);
    } else if is_frame_header(code) {
    } else {
        let length = be_u16(p) as nat;
        assert(be_u16(p) == be_u16(f));
        let p_next = p.skip(passed(p, length) as int);
        let f_next = f.skip(passed(f, length) as int);
        if passed(p, length) != passed(f, length) {
            assert(p_next.len() == 0);
        }
        assert(p_next.is_prefix_of(f_next));
        lemma_span_prefix(p_next, f_next);
    }
}

/// Once a leading part of a stream has a verdict other than "not enough
/// data", the decoder passes as many bytes on the whole stream as on that
/// part.
pub proof fn lemma_prefix_consumed(prefix: Seq<u8>, full: Seq<u8>)
    requires
        prefix.is_prefix_of(full),
        decode(prefix) != Err::<ImageMeta, ImageError>(ImageError::UnexpectedEof),
    ensures
        consumed(full) == consumed(prefix),
{
    lemma_prefix_verdict(prefix, full);
    if decode(prefix) is Ok {
        assert(prefix.skip(2).is_prefix_of(full.skip(2)));
        lemma_span_prefix(prefix.skip(2), full.skip(2));
    }
}

/// Reads the metadata of a JPEG stream from its leading bytes.
pub fn load(image: &[u8]) -> (r: Result<ImageMeta, ImageError>)
    ensures
        r == decode(image@),
{
    let mut reader = Reader::new(image);
    assert(reader.remaining() =~= image@);
    load_from(&mut reader)
}

/// Reads the metadata of the JPEG stream that starts at the cursor. On
/// success the cursor is left behind the number of components in the frame
/// header; on failure it stays where it was.
pub fn load_from(image: &mut Reader) -> (r: Result<ImageMeta, ImageError>)
    ensures
        final(image).source() == old(image).source(),
        r == decode(old(image).remaining()),
        final(image).position() == old(image).position() + consumed(old(image).remaining()),
{
    let bytes = image.rest();
    let mut fields = Reader::new(bytes);
    assert(fields.remaining() =~= bytes@);
    read_signature(&mut fields)?;
    let (meta, span) = find_frame(fields.rest())?;
    assert(span + 2 <= bytes@.len() == bytes.len());
    image.skip(2 + span);
    Ok(meta)
}

/// Reads two bytes and tells whether they are the marker that starts an
/// image.
pub fn read_signature(image: &mut Reader) -> (r: Result<(), ImageError>)
    ensures
        final(image).source() == old(image).source(),
        match r {
            Ok(_) => {
                &&& old(image).remaining().len() >= 2
                &&& old(image).remaining()[0] == 0xff
                &&& old(image).remaining()[1] == 0xd8
                &&& final(image).position() == old(image).position() + 2
                &&& final(image).remaining() == old(image).remaining().skip(2)
            },
            Err(ImageError::UnexpectedEof) => {
                &&& old(image).remaining().len() < 2
                &&& *final(image) == *old(image)
            },
            Err(e) => {
                &&& e == ImageError::InvalidSignature
                &&& old(image).remaining().len() >= 2
                &&& !(old(image).remaining()[0] == 0xff && old(image).remaining()[1] == 0xd8)
                &&& final(image).position() == old(image).position() + 2
            },
        },
{
    let s = image.read_exact(2)?;
    if s[0] == 0xff && s[1] == 0xd8 {
        Ok(())
    } else {
        Err(ImageError::InvalidSignature)
    }
}

/// Walks the markers that start at `bytes` up to the first frame header.
/// With the metadata comes the number of bytes up to the end of the last
/// field read.
pub fn find_frame(bytes: &[u8]) -> (r: Result<(ImageMeta, usize), ImageError>)
    ensures
        match r {
            Ok((meta, span)) => {
                &&& scan(bytes@) == Ok::<ImageMeta, ImageError>(meta)
                &&& span == scan_span(bytes@)
                &&& span <= bytes@.len()
            },
            Err(e) => scan(bytes@) == Err::<ImageMeta, ImageError>(e),
        },
{
    let mut reader = Reader::new(bytes);
    assert(reader.remaining() =~= bytes@);
    loop
        invariant
            reader.source() == bytes@,
            reader.position() <= bytes@.len(),
            scan(reader.remaining()) == scan(bytes@),
            reader.position() + scan_span(reader.remaining()) == scan_span(bytes@),
        decreases reader.remaining().len(),
    {
        let ghost before = reader.remaining();
        let marker = reader.read_exact(2)?;
        if marker[0] != 0xff {
            return Err(ImageError::CorruptImage(Corruption::NotAMarker(marker[0])));
        }
        let code = marker[1];
        if code == 0xff {
            let back = reader.seek_relative(-1);
            assert(back is Ok);
            assert(reader.remaining() =~= before.skip(1));
        } else if code == 0x00 {
            return Err(ImageError::CorruptImage(Corruption::InvalidMarker));
        } else if code == 0x01 || (0xd0 <= code && code <= 0xd8) {
        } else if code == 0xd9 || code == 0xda {
            return Err(ImageError::CorruptImage(Corruption::MissingFrameHeader(code)));
        } else if 0xc0 <= code && code <= 0xcf && code != 0xc4 && code != 0xc8 && code != 0xcc {
            let meta = frame_header(reader.rest(), code)?;
            assert(reader.position() + 8 <= bytes@.len() == bytes.len());
            return Ok((meta, reader.tell() + 8));
        } else {
            let ghost segment = reader.remaining();
            let length = reader.read_u16_be()?;
            if length < 2 {
                return Err(
                    ImageError::CorruptImage(Corruption::InvalidSegmentLength(code, length)),
                );
            }
            reader.skip((length - 2) as usize);
            assert(reader.remaining() =~= segment.skip(passed(segment, length as nat) as int));
        }
    }
}

/// Tells whether the process of the frame header marker `code` permits
/// samples of `precision` bits.
pub fn permits_precision(code: u8, precision: u8) -> (r: bool)
    ensures
        r == precision_permitted(code, precision),
{
    if code == 0xc0 {
        precision == 8
    } else if code == 0xc3 || code == 0xc7 || code == 0xcb || code == 0xcf {
        2 <= precision && precision <= 16
    } else {
        precision == 8 || precision == 12
    }
}

/// Interprets the frame header segment at the start of `bytes`, which
/// follows the marker with the code `code`.
pub fn frame_header(bytes: &[u8], code: u8) -> (r: Result<ImageMeta, ImageError>)
    ensures
        r == frame(bytes@, code),
{
    let mut fields = Reader::new(bytes);
    assert(fields.remaining() =~= bytes@);
    let length = fields.read_u16_be()?;
    if length < 8 {
        return Err(ImageError::CorruptImage(Corruption::InvalidSegmentLength(code, length)));
    }
    let resolution = fields.read_u8()?;
    let height = fields.read_u16_be()?;
    let width = fields.read_u16_be()?;
    let components = fields.read_u8()?;
    if !permits_precision(code, resolution) {
        return Err(ImageError::CorruptImage(Corruption::InvalidPrecision(code, resolution)));
    }
    let mode = match components {
        1 => ColorMode::Grayscale,
        3 => ColorMode::Rgb,
        4 => ColorMode::Cmyk,
        _ => {
            return Err(ImageError::CorruptImage(Corruption::InvalidComponentCount(components)));
        },
    };
    Ok(
        ImageMeta {
            animation_frames: None,
            color: Color { mode, alpha_channel: false, resolution },
            dimensions: Dimensions { width: width as u32, height: height as u32 },
            format: Format::Jpeg,
        },
    )
}

} // verus!
