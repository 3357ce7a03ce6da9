use crate::bmp;
use crate::errors::ImageError;
use crate::gif;
use crate::jpeg;
use crate::png;
use crate::reader::Reader;
use crate::types::{Format, ImageMeta, Tag};
use crate::webp;
use vstd::prelude::*;

verus! {

/// The number of leading bytes by which a format is told: as many as the
/// longest signature has.
pub const PREFIX_LEN: usize = 12;

/// The format whose signature stands at the start of `bytes`, if any. The
/// signatures are tried in the order of the formats' names.
pub open spec fn format_of(bytes: Seq<u8>) -> Option<Format>
    recommends
        bytes.len() >= PREFIX_LEN,
{
    if bytes[0] == 0x42 && bytes[1] == 0x4d {
        Some(Format::Bmp)
    } else if gif::has_signature(bytes) {
        Some(Format::Gif)
    } else if bytes[0] == 0xff && bytes[1] == 0xd8 {
        Some(Format::Jpeg)
    } else if bytes.take(8) == png::signature() {
        Some(Format::Png)
    } else if Tag::of(bytes) == webp::riff_tag() && Tag::of(bytes.skip(8)) == webp::form_tag() {
        Some(Format::Webp)
    } else {
        None
    }
}

/// The format of the stream `bytes`, told by its first twelve bytes.
pub open spec fn guess(bytes: Seq<u8>) -> Result<Format, ImageError> {
    if bytes.len() < PREFIX_LEN {
        Err(ImageError::UnexpectedEof)
    } else {
        match format_of(bytes) {
            Some(format) => Ok(format),
            None => Err(ImageError::UnsupportedFormat),
        }
    }
}

/// What the decoder of `format` makes of the stream `bytes`.
pub open spec fn decode_as(format: Format, bytes: Seq<u8>) -> Result<ImageMeta, ImageError> {
    match format {
        Format::Bmp => bmp::decode(bytes),
        Format::Gif => gif::decode(bytes),
        Format::Jpeg => jpeg::decode(bytes),
        Format::Png => png::decode(bytes),
        Format::Webp => webp::decode(bytes),
    }
}

/// The metadata of the stream `bytes` in whichever format its signature
/// tells, or the reason why it has none.
pub open spec fn decode(bytes: Seq<u8>) -> Result<ImageMeta, ImageError> {
    match guess(bytes) {
        Ok(format) => decode_as(format, bytes),
        Err(e) => Err(e),
    }
}

/// Growing a stream changes no verdict but "not enough data": a leading part
/// of a stream is either too short to decide, or decoded exactly as the
/// whole stream is.
pub proof fn lemma_prefix_verdict(prefix: Seq<u8>, full: Seq<u8>)
    requires
        prefix.is_prefix_of(full),
    ensures
        decode(prefix) == Err::<ImageMeta, ImageError>(ImageError::UnexpectedEof) || decode(prefix)
            == decode(full),
{
    if prefix.len() >= PREFIX_LEN {
        assert(gif::has_signature(prefix) == gif::has_signature(full));
        assert(Tag::of(prefix) == Tag::of(full));
        assert(Tag::of(prefix.skip(8)) == Tag::of(full.skip(8)));
        assert(prefix.take(8) =~= full.take(8));
        assert(format_of(prefix) == format_of(full));
        bmp::lemma_prefix_verdict(prefix, full);
        gif::lemma_prefix_verdict(prefix, full);
        jpeg::lemma_prefix_verdict(prefix, full);
        png::lemma_prefix_verdict(prefix, full);
        webp::lemma_prefix_verdict(prefix, full);
    }
}

/// Whatever a format's own decoder accepts, the dispatcher decodes to the
/// same metadata.
pub proof fn lemma_agrees_with_decoder(format: Format, bytes: Seq<u8>)
    requires
        decode_as(format, bytes) is Ok,
    ensures
        guess(bytes) == Ok::<Format, ImageError>(format),
        decode(bytes) == decode_as(format, bytes),
{
    match format {
        Format::Bmp => {},
        Format::Gif => {},
        Format::Jpeg => {
            jpeg::lemma_scan_needs(bytes.skip(2));
        },
        Format::Png => {
            assert(bytes.take(8)[0] == 0x89);
            assert(bytes[0] == 0x89);
        },
        Format::Webp => {},
    }
}

/// Whatever a decoder finds is an image of the decoder's own format, and
/// only the WebP decoder reports animation frames.
pub proof fn lemma_result_names_format(format: Format, bytes: Seq<u8>)
    requires
        decode_as(format, bytes) is Ok,
    ensures
        decode_as(format, bytes).unwrap().format == format,
        format != Format::Webp ==> decode_as(format, bytes).unwrap().animation_frames is None,
{
    match format {
        Format::Bmp => {},
        Format::Gif => {},
        Format::Jpeg => {
            jpeg::lemma_scan_result(bytes.skip(2));
        },
        Format::Png => {},
        Format::Webp => {
            webp::lemma_scan_result(
                bytes.skip(12),
                (crate::bytes::le_u32(bytes.skip(4)) - 4) as nat,
                0,
            );
        },
    }
}

/// Decoding depends on the bytes alone: two streams that hold the same
/// bytes are decoded alike, by the dispatcher and by every decoder.
pub proof fn lemma_same_bytes_same_verdict(format: Format, a: Seq<u8>, b: Seq<u8>)
    requires
        a.len() == b.len(),
        forall|i: int| 0 <= i < a.len() ==> a[i] == b[i],
    ensures
        decode(a) == decode(b),
        decode_as(format, a) == decode_as(format, b),
{
    assert(a =~= b);
}

/// Where the dispatcher finds no format, every decoder rejects the
/// stream's signature.
pub proof fn lemma_unsupported_by_all(format: Format, bytes: Seq<u8>)
    requires
        decode(bytes) == Err::<ImageMeta, ImageError>(ImageError::UnsupportedFormat),
    ensures
        decode_as(format, bytes) == Err::<ImageMeta, ImageError>(ImageError::InvalidSignature),
{
    // Once a format is told, its decoder never answers "unsupported".
    if guess(bytes) is Ok {
        lemma_never_unsupported(guess(bytes).unwrap(), bytes);
    }
}

/// No decoder of a format answers that the format is unsupported.
pub proof fn lemma_never_unsupported(format: Format, bytes: Seq<u8>)
    ensures
        decode_as(format, bytes) != Err::<ImageMeta, ImageError>(ImageError::UnsupportedFormat),
{
    match format {
        Format::Bmp => {},
        Format::Gif => {},
        Format::Jpeg => {
            if bytes.len() >= 2 {
                jpeg::lemma_scan_supported(bytes.skip(2));
            }
        },
        Format::Png => {},
        Format::Webp => {
            if bytes.len() >= 12 && webp::decode(bytes) == Err::<ImageMeta, ImageError>(
                ImageError::UnsupportedFormat,
            ) {
                webp::lemma_scan_supported(
                    bytes.skip(12),
                    (crate::bytes::le_u32(bytes.skip(4)) - 4) as nat,
                    0,
                );
            }
        },
    }
}

/// The number of bytes that the decoder of `format` passes over on the
/// stream `bytes`.
pub open spec fn consumed_as(format: Format, bytes: Seq<u8>) -> nat {
    match format {
        Format::Bmp => bmp::consumed(bytes),
        Format::Gif => gif::consumed(bytes),
        Format::Jpeg => jpeg::consumed(bytes),
        Format::Png => png::consumed(bytes),
        Format::Webp => webp::consumed(bytes),
    }
}

/// The number of bytes that decoding the stream `bytes` passes over, in
/// whichever format its signature tells: none where it tells no format.
pub open spec fn consumed(bytes: Seq<u8>) -> nat {
    match guess(bytes) {
        Ok(format) => consumed_as(format, bytes),
        Err(_) => 0,
    }
}

/// What a caller that feeds a decoder from a source does after a read.
#[derive(Clone, Copy, Debug, PartialEq, Eq)]
pub enum Step {
    /// Read more of the source, and decode again what was read so far.
    ReadMore,
    /// The verdict stands. The source belongs as many bytes behind the
    /// start of the stream as the second field says.
    Finish(Result<ImageMeta, ImageError>, usize),
}

/// What `format`'s decoder makes of `bytes`, or the dispatcher where
/// `format` is `None`.
pub open spec fn verdict_of(format: Option<Format>, bytes: Seq<u8>) -> Result<
    ImageMeta,
    ImageError,
> {
    match format {
        Some(f) => decode_as(f, bytes),
        None => decode(bytes),
    }
}

/// The number of bytes that `format`'s decoder passes over on `bytes`, or
/// the dispatcher where `format` is `None`.
pub open spec fn position_of(format: Option<Format>, bytes: Seq<u8>) -> nat {
    match format {
        Some(f) => consumed_as(f, bytes),
        None => consumed(bytes),
    }
}

/// Whether more of the source is to be read, where `bytes` were read so
/// far and `grew` says whether the last read brought anything: the source
/// must not be exhausted, and either the decoder is short of data, or it
/// has passed all the bytes that are there, so that its cursor may have
/// been stopped by their end.
pub open spec fn wants_more(format: Option<Format>, bytes: Seq<u8>, grew: bool) -> bool {
    grew && (verdict_of(format, bytes) == Err::<ImageMeta, ImageError>(ImageError::UnexpectedEof)
        || position_of(format, bytes) == bytes.len())
}

/// The next step of a caller that has read `bytes` so far.
pub open spec fn step_of(format: Option<Format>, bytes: Seq<u8>, grew: bool) -> Step {
    if wants_more(format, bytes, grew) {
        Step::ReadMore
    } else {
        Step::Finish(verdict_of(format, bytes), position_of(format, bytes) as usize)
    }
}

/// Where a caller finishes although the source may hold more, nothing is
/// lost: the verdict and the position are those of every longer stream
/// that begins with the bytes read so far.
pub proof fn lemma_finish_is_final(format: Option<Format>, prefix: Seq<u8>, full: Seq<u8>)
    requires
        prefix.is_prefix_of(full),
        !wants_more(format, prefix, true),
    ensures
        verdict_of(format, full) == verdict_of(format, prefix),
        position_of(format, full) == position_of(format, prefix),
{
    lemma_prefix_verdict(prefix, full);
    bmp::lemma_prefix_verdict(prefix, full);
    gif::lemma_prefix_verdict(prefix, full);
    jpeg::lemma_prefix_verdict(prefix, full);
    png::lemma_prefix_verdict(prefix, full);
    webp::lemma_prefix_verdict(prefix, full);
    let which = match format {
        Some(f) => f,
        None => if guess(prefix) is Ok {
            guess(prefix).unwrap()
        } else {
            Format::Png
        },
    };
    if format is None && prefix.len() >= PREFIX_LEN {
        assert(gif::has_signature(prefix) == gif::has_signature(full));
        assert(Tag::of(prefix) == Tag::of(full));
        assert(Tag::of(prefix.skip(8)) == Tag::of(full.skip(8)));
        assert(prefix.take(8) =~= full.take(8));
        assert(format_of(prefix) == format_of(full));
    }
    if format is Some || guess(prefix) is Ok {
        match which {
            Format::Bmp => bmp::lemma_prefix_consumed(prefix, full),
            Format::Gif => gif::lemma_prefix_consumed(prefix, full),
            Format::Jpeg => jpeg::lemma_prefix_consumed(prefix, full),
            Format::Png => png::lemma_prefix_consumed(prefix, full),
            Format::Webp => webp::lemma_prefix_consumed(prefix, full),
        }
    }
}

/// Tells the format of a stream by the signature in its first twelve
/// bytes.
pub fn guess_format(image: &[u8]) -> (r: Result<Format, ImageError>)
    ensures
        r == guess(image@),
{
    let mut reader = Reader::new(image);
    assert(reader.remaining() =~= image@);
    let s = reader.read_exact(PREFIX_LEN)?;
    proof {
        assert(gif::has_signature(s@) == gif::has_signature(image@));
        assert(Tag::of(s@) == Tag::of(image@));
        assert(Tag::of(s@.skip(8)) == Tag::of(image@.skip(8)));
        assert(s@.take(8) =~= image@.take(8));
    }
    if s[0] == 0x42 && s[1] == 0x4d {
        Ok(Format::Bmp)
    } else if s[0] == 0x47 && s[1] == 0x49 && s[2] == 0x46 && s[3] == 0x38 && (s[4] == 0x37 || s[4]
        == 0x39) && s[5] == 0x61 {
        Ok(Format::Gif)
    } else if s[0] == 0xff && s[1] == 0xd8 {
        Ok(Format::Jpeg)
    } else if s[0] == 0x89 && s[1] == 0x50 && s[2] == 0x4e && s[3] == 0x47 && s[4] == 0x0d && s[5]
        == 0x0a && s[6] == 0x1a && s[7] == 0x0a {
        assert(s@.take(8) =~= png::signature());
        Ok(Format::Png)
    } else if s[0] == 0x52 && s[1] == 0x49 && s[2] == 0x46 && s[3] == 0x46 && s[8] == 0x57 && s[9]
        == 0x45 && s[10] == 0x42 && s[11] == 0x50 {
        Ok(Format::Webp)
    } else {
        assert(s@.take(8) != png::signature()) by {
            if s@.take(8) == png::signature() {
                assert(s@.take(8)[0] == 0x89 && s@.take(8)[1] == 0x50 && s@.take(8)[2] == 0x4e
                    && s@.take(8)[3] == 0x47 && s@.take(8)[4] == 0x0d && s@.take(8)[5] == 0x0a
                    && s@.take(8)[6] == 0x1a && s@.take(8)[7] == 0x0a);
            }
        }
        Err(ImageError::UnsupportedFormat)
    }
}

/// Reads the metadata of a stream held in memory, in whichever of the
/// known formats its signature tells.
pub fn load_from_buf(image: &[u8]) -> (r: Result<ImageMeta, ImageError>)
    ensures
        r == decode(image@),
{
    let mut reader = Reader::new(image);
    assert(reader.remaining() =~= image@);
    load_from(&mut reader)
}

/// Reads the metadata of the stream that starts at the cursor, in
/// whichever of the known formats its signature tells. The signature is
/// looked at without moving the cursor, and the decoder in charge starts
/// where the stream starts. Where no format is told the cursor stays.
pub fn load_from(image: &mut Reader) -> (r: Result<ImageMeta, ImageError>)
    ensures
        final(image).source() == old(image).source(),
        r == decode(old(image).remaining()),
        final(image).position() == old(image).position() + consumed(old(image).remaining()),
{
    let format = guess_format(image.rest())?;
    load_as(format, image)
}

/// Reads the metadata of the stream that starts at the cursor with the
/// decoder of `format`.
pub fn load_as(format: Format, image: &mut Reader) -> (r: Result<ImageMeta, ImageError>)
    ensures
        final(image).source() == old(image).source(),
        r == decode_as(format, old(image).remaining()),
        final(image).position() == old(image).position() + consumed_as(
            format,
            old(image).remaining(),
        ),
{
    match format {
        Format::Bmp => bmp::load_from(image),
        Format::Gif => gif::load_from(image),
        Format::Jpeg => jpeg::load_from(image),
        Format::Png => png::load_from(image),
        Format::Webp => webp::load_from(image),
    }
}

/// Decodes what was read of a source so far and tells what to do next.
/// `format` names the decoder to use, or is `None` to have the format told
/// by the signature; `bytes` is all that was read, from the place where the
/// stream starts; `grew` says whether the last read brought anything.
pub fn feed_step(format: Option<Format>, bytes: &[u8], grew: bool) -> (r: Step)
    ensures
        r == step_of(format, bytes@, grew),
{
    let mut reader = Reader::new(bytes);
    assert(reader.remaining() =~= bytes@);
    let verdict = match format {
        Some(f) => load_as(f, &mut reader),
        None => load_from(&mut reader),
    };
    let position = reader.tell();
    let open = match verdict {
        Err(ImageError::UnexpectedEof) => true,
        _ => position == bytes.len(),
    };
    if grew && open {
        Step::ReadMore
    } else {
        Step::Finish(verdict, position)
    }
}

} // verus!
