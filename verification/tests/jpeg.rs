use image_meta::errors::{Corruption, ImageError};
use image_meta::jpeg;
use image_meta::reader::Reader;
use image_meta::types::{Color, ColorMode, Dimensions, Format, ImageMeta};

fn segment(code: u8, payload: &[u8]) -> Vec<u8> {
    let mut v = vec![0xff, code];
    v.extend_from_slice(&((payload.len() + 2) as u16).to_be_bytes());
    v.extend_from_slice(payload);
    v
}

fn frame(code: u8, precision: u8, width: u16, height: u16, components: u8) -> Vec<u8> {
    let mut p = vec![precision];
    p.extend_from_slice(&height.to_be_bytes());
    p.extend_from_slice(&width.to_be_bytes());
    p.push(components);
    for i in 0..components {
        p.extend_from_slice(&[i + 1, 0x11, 0]);
    }
    segment(code, &p)
}

fn stream(parts: &[Vec<u8>]) -> Vec<u8> {
    let mut v = vec![0xff, 0xd8];
    for p in parts {
        v.extend_from_slice(p);
    }
    v
}

fn meta(mode: ColorMode, resolution: u8, width: u32, height: u32) -> ImageMeta {
    ImageMeta {
        animation_frames: None,
        color: Color { mode, alpha_channel: false, resolution },
        dimensions: Dimensions { width, height },
        format: Format::Jpeg,
    }
}

fn corrupt(c: Corruption) -> Result<ImageMeta, ImageError> {
    Err(ImageError::CorruptImage(c))
}

#[test]
fn jpeg_baseline_frame() {
    let s = stream(&[segment(0xe0, b"JFIF\0\x01\x01\0\0\x01\0\x01\0\0"), frame(0xc0, 8, 507, 370, 3)]);
    assert_eq!(jpeg::load(&s), Ok(meta(ColorMode::Rgb, 8, 507, 370)));
}

#[test]
fn jpeg_height_comes_before_width() {
    let s = stream(&[frame(0xc0, 8, 0x0102, 0x0304, 3)]);
    assert_eq!(jpeg::load(&s), Ok(meta(ColorMode::Rgb, 8, 0x0102, 0x0304)));
    let s = stream(&[frame(0xc0, 8, 0xffff, 0, 3)]);
    assert_eq!(jpeg::load(&s), Ok(meta(ColorMode::Rgb, 8, 0xffff, 0)));
}

#[test]
fn jpeg_components_and_precision() {
    assert_eq!(jpeg::load(&stream(&[frame(0xc0, 8, 5, 6, 1)])), Ok(meta(ColorMode::Grayscale, 8, 5, 6)));
    assert_eq!(jpeg::load(&stream(&[frame(0xc1, 12, 5, 6, 3)])), Ok(meta(ColorMode::Rgb, 12, 5, 6)));
    assert_eq!(jpeg::load(&stream(&[frame(0xc2, 8, 5, 6, 4)])), Ok(meta(ColorMode::Cmyk, 8, 5, 6)));
    for n in [0u8, 2, 5, 255] {
        let mut f = frame(0xc0, 8, 5, 6, 1);
        f[9] = n;
        assert_eq!(jpeg::load(&stream(&[f])), corrupt(Corruption::InvalidComponentCount(n)));
    }
}

fn precision_ok(code: u8, precision: u8) -> bool {
    match code {
        0xc0 => precision == 8,
        0xc3 | 0xc7 | 0xcb | 0xcf => (2..=16).contains(&precision),
        _ => precision == 8 || precision == 12,
    }
}

#[test]
fn jpeg_only_permitted_precisions_decode() {
    for code in 0xc0u8..=0xcf {
        if code == 0xc4 || code == 0xc8 || code == 0xcc {
            continue;
        }
        for precision in 0u8..=255 {
            let r = jpeg::load(&stream(&[frame(code, precision, 507, 370, 3)]));
            if precision_ok(code, precision) {
                assert_eq!(r, Ok(meta(ColorMode::Rgb, precision, 507, 370)));
            } else {
                assert_eq!(
                    r,
                    corrupt(Corruption::InvalidPrecision(code, precision)),
                    "marker {:x} with precision {}",
                    code,
                    precision
                );
            }
            assert_eq!(jpeg::permits_precision(code, precision), precision_ok(code, precision));
        }
    }
}

#[test]
fn jpeg_precision_by_process() {
    let load = |code: u8, precision: u8| jpeg::load(&stream(&[frame(code, precision, 5, 6, 1)]));
    // Baseline: eight bits only.
    assert_eq!(load(0xc0, 8), Ok(meta(ColorMode::Grayscale, 8, 5, 6)));
    assert_eq!(load(0xc0, 7), corrupt(Corruption::InvalidPrecision(0xc0, 7)));
    assert_eq!(load(0xc0, 12), corrupt(Corruption::InvalidPrecision(0xc0, 12)));
    // Extended and progressive: eight or twelve.
    assert_eq!(load(0xc1, 12), Ok(meta(ColorMode::Grayscale, 12, 5, 6)));
    assert_eq!(load(0xc2, 8), Ok(meta(ColorMode::Grayscale, 8, 5, 6)));
    assert_eq!(load(0xc2, 16), corrupt(Corruption::InvalidPrecision(0xc2, 16)));
    assert_eq!(load(0xca, 10), corrupt(Corruption::InvalidPrecision(0xca, 10)));
    // Lossless: two to sixteen.
    assert_eq!(load(0xc3, 2), Ok(meta(ColorMode::Grayscale, 2, 5, 6)));
    assert_eq!(load(0xc3, 16), Ok(meta(ColorMode::Grayscale, 16, 5, 6)));
    assert_eq!(load(0xc7, 1), corrupt(Corruption::InvalidPrecision(0xc7, 1)));
    assert_eq!(load(0xcf, 17), corrupt(Corruption::InvalidPrecision(0xcf, 17)));
}

#[test]
fn jpeg_precision_is_judged_before_the_components() {
    let mut f = frame(0xc0, 9, 5, 6, 1);
    f[9] = 2;
    assert_eq!(jpeg::load(&stream(&[f])), corrupt(Corruption::InvalidPrecision(0xc0, 9)));
}

#[test]
fn jpeg_every_frame_header_code() {
    for code in 0xc0u8..=0xcf {
        let s = stream(&[frame(code, 8, 7, 9, 3), frame(0xc0, 8, 1, 1, 1)]);
        let r = jpeg::load(&s);
        if code == 0xc4 || code == 0xc8 || code == 0xcc {
            // Huffman tables, a reserved code and arithmetic conditioning
            // are segments to pass over.
            assert_eq!(r, Ok(meta(ColorMode::Grayscale, 8, 1, 1)), "code {:x}", code);
        } else {
            assert_eq!(r, Ok(meta(ColorMode::Rgb, 8, 7, 9)), "code {:x}", code);
        }
    }
}

#[test]
fn jpeg_passes_over_segments_by_their_length() {
    let s = stream(&[
        segment(0xe1, &vec![0xff; 300]),
        segment(0xdb, &[0; 65]),
        segment(0xfe, b""),
        segment(0xc4, &[0xc0; 29]),
        frame(0xc2, 8, 640, 480, 3),
    ]);
    assert_eq!(jpeg::load(&s), Ok(meta(ColorMode::Rgb, 8, 640, 480)));
    let s = stream(&[segment(0xe2, &vec![0; 0xfffd]), frame(0xc0, 8, 2, 3, 1)]);
    assert_eq!(jpeg::load(&s), Ok(meta(ColorMode::Grayscale, 8, 2, 3)));
}

#[test]
fn jpeg_standalone_markers_and_fill_bytes() {
    let s = stream(&[
        vec![0xff, 0x01],
        vec![0xff, 0xd0],
        vec![0xff, 0xd7],
        vec![0xff, 0xd8],
        vec![0xff, 0xff, 0xff],
        frame(0xc0, 8, 11, 12, 3),
    ]);
    assert_eq!(jpeg::load(&s), Ok(meta(ColorMode::Rgb, 8, 11, 12)));
    let s = stream(&[segment(0xe0, &[1, 2, 3]), vec![0xff], frame(0xc0, 8, 11, 12, 3)]);
    assert_eq!(jpeg::load(&s), Ok(meta(ColorMode::Rgb, 8, 11, 12)));
}

#[test]
fn jpeg_signature() {
    assert_eq!(jpeg::load(b""), Err(ImageError::UnexpectedEof));
    assert_eq!(jpeg::load(b"\xff"), Err(ImageError::UnexpectedEof));
    assert_eq!(jpeg::load(b"\xff\xd9"), Err(ImageError::InvalidSignature));
    assert_eq!(jpeg::load(b"\xd8\xff\xff\xd8"), Err(ImageError::InvalidSignature));
    assert_eq!(jpeg::load(b"BM\x00\x00"), Err(ImageError::InvalidSignature));
    assert_eq!(jpeg::load(b"\xff\xd8"), Err(ImageError::UnexpectedEof));
}

#[test]
fn jpeg_malformed_markers() {
    assert_eq!(jpeg::load(&stream(&[vec![0x12, 0x34]])), corrupt(Corruption::NotAMarker(0x12)));
    assert_eq!(jpeg::load(&stream(&[vec![0x00, 0xff]])), corrupt(Corruption::NotAMarker(0x00)));
    assert_eq!(jpeg::load(&stream(&[vec![0xff, 0x00]])), corrupt(Corruption::InvalidMarker));
    assert_eq!(
        jpeg::load(&stream(&[segment(0xe0, &[1, 2]), vec![0xd8, 0xff]])),
        corrupt(Corruption::NotAMarker(0xd8))
    );
}

#[test]
fn jpeg_headers_end_without_frame() {
    assert_eq!(
        jpeg::load(&stream(&[vec![0xff, 0xd9]])),
        corrupt(Corruption::MissingFrameHeader(0xd9))
    );
    assert_eq!(
        jpeg::load(&stream(&[segment(0xdb, &[0; 65]), segment(0xda, &[0; 10]), frame(0xc0, 8, 1, 1, 1)])),
        corrupt(Corruption::MissingFrameHeader(0xda))
    );
}

#[test]
fn jpeg_segment_lengths() {
    for len in [0u8, 1] {
        assert_eq!(
            jpeg::load(&stream(&[vec![0xff, 0xe0, 0x00, len]])),
            corrupt(Corruption::InvalidSegmentLength(0xe0, len as u16))
        );
    }
    // The shortest segment holds its length only.
    assert_eq!(
        jpeg::load(&stream(&[vec![0xff, 0xe0, 0x00, 0x02], frame(0xc0, 8, 1, 2, 1)])),
        Ok(meta(ColorMode::Grayscale, 8, 1, 2))
    );
    for len in 0u8..8 {
        assert_eq!(
            jpeg::load(&stream(&[vec![0xff, 0xc0, 0x00, len, 8, 0, 1, 0, 1, 3]])),
            corrupt(Corruption::InvalidSegmentLength(0xc0, len as u16))
        );
    }
    assert_eq!(
        jpeg::load(&stream(&[vec![0xff, 0xc0, 0x00, 8, 8, 0, 1, 0, 2, 3]])),
        Ok(meta(ColorMode::Rgb, 8, 2, 1))
    );
}

#[test]
fn jpeg_truncated_streams_want_data() {
    let s = stream(&[segment(0xe0, &[0; 14]), segment(0xdb, &[0; 65]), frame(0xc0, 8, 507, 370, 3)]);
    let needed = 2 + 18 + 69 + 2 + 8;
    for n in 0..needed {
        assert_eq!(jpeg::load(&s[..n]), Err(ImageError::UnexpectedEof), "prefix of {}", n);
    }
    for n in needed..=s.len() {
        assert_eq!(jpeg::load(&s[..n]), Ok(meta(ColorMode::Rgb, 8, 507, 370)), "prefix of {}", n);
    }
}

#[test]
fn jpeg_parts_on_their_own() {
    assert_eq!(jpeg::find_frame(&frame(0xc0, 8, 3, 4, 3)), Ok((meta(ColorMode::Rgb, 8, 3, 4), 10)));
    let mut walk = segment(0xe0, &[0; 5]);
    walk.extend_from_slice(&[0xff, 0xff, 0xd0]);
    walk.extend_from_slice(&frame(0xc2, 12, 3, 4, 1));
    assert_eq!(
        jpeg::find_frame(&walk),
        Ok((meta(ColorMode::Grayscale, 12, 3, 4), 9 + 3 + 10))
    );
    assert_eq!(jpeg::find_frame(b""), Err(ImageError::UnexpectedEof));
    assert_eq!(
        jpeg::frame_header(&frame(0xc0, 8, 3, 4, 1)[2..], 0xc0),
        Ok(meta(ColorMode::Grayscale, 8, 3, 4))
    );
    assert_eq!(
        jpeg::frame_header(&[0, 7, 8, 0, 1, 0, 1, 3], 0xc9),
        corrupt(Corruption::InvalidSegmentLength(0xc9, 7))
    );
    assert_eq!(jpeg::frame_header(&[0, 17, 8, 0, 1, 0, 1], 0xc0), Err(ImageError::UnexpectedEof));
}

#[test]
fn jpeg_decoding_twice_gives_the_same() {
    let s = stream(&[frame(0xc0, 8, 507, 370, 3)]);
    assert_eq!(jpeg::load(&s), jpeg::load(&s));
    assert_eq!(jpeg::load(&s[..7]), jpeg::load(&s[..7]));
}

#[test]
fn jpeg_load_from_leaves_the_cursor_behind_the_frame_fields() {
    let mut s = vec![0u8; 3];
    s.extend_from_slice(&stream(&[segment(0xe0, &[0; 14]), segment(0xdb, &[0; 65]), frame(0xc0, 8, 507, 370, 3)]));
    let mut r = Reader::new(&s);
    r.skip(3);
    assert_eq!(jpeg::load_from(&mut r), Ok(meta(ColorMode::Rgb, 8, 507, 370)));
    assert_eq!(r.tell(), 3 + 2 + 18 + 69 + 2 + 8);
}

#[test]
fn jpeg_load_from_fails_without_moving() {
    let whole = stream(&[segment(0xe0, &[0; 14]), frame(0xc0, 8, 507, 370, 3)]);
    let bad_precision = stream(&[frame(0xc0, 9, 1, 1, 1)]);
    for bad in [&whole[..25], &bad_precision[..], b"\xff\xd8\xff\xd9", b"\xff\xd9\xff\xd8"] {
        let mut r = Reader::new(bad);
        assert!(jpeg::load_from(&mut r).is_err());
        assert_eq!(r.tell(), 0);
    }
}
