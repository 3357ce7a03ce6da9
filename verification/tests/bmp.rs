use image_meta::bmp;
use image_meta::errors::{Corruption, ImageError};
use image_meta::reader::Reader;
use image_meta::types::{Color, ColorMode, Dimensions, Format, ImageMeta};

fn file_header() -> Vec<u8> {
    let mut v = b"BM".to_vec();
    v.extend_from_slice(&[0x46, 0, 0, 0, 0, 0, 0, 0, 0x36, 0, 0, 0]);
    v
}

fn info_stream(header_size: u32, width: i32, height: i32, bit_count: u16) -> Vec<u8> {
    let mut v = file_header();
    v.extend_from_slice(&header_size.to_le_bytes());
    v.extend_from_slice(&width.to_le_bytes());
    v.extend_from_slice(&height.to_le_bytes());
    v.extend_from_slice(&1u16.to_le_bytes());
    v.extend_from_slice(&bit_count.to_le_bytes());
    v.extend_from_slice(&[0; 24]);
    v
}

fn core_stream(width: u16, height: u16, bit_count: u16) -> Vec<u8> {
    let mut v = file_header();
    v.extend_from_slice(&12u32.to_le_bytes());
    v.extend_from_slice(&width.to_le_bytes());
    v.extend_from_slice(&height.to_le_bytes());
    v.extend_from_slice(&1u16.to_le_bytes());
    v.extend_from_slice(&bit_count.to_le_bytes());
    v
}

fn meta(mode: ColorMode, alpha_channel: bool, resolution: u8, width: u32, height: u32) -> ImageMeta {
    ImageMeta {
        animation_frames: None,
        color: Color { mode, alpha_channel, resolution },
        dimensions: Dimensions { width, height },
        format: Format::Bmp,
    }
}

fn corrupt(c: Corruption) -> Result<ImageMeta, ImageError> {
    Err(ImageError::CorruptImage(c))
}

#[test]
fn bmp_true_color() {
    assert_eq!(
        bmp::load(&info_stream(40, 507, 370, 24)),
        Ok(meta(ColorMode::Rgb, false, 8, 507, 370))
    );
}

#[test]
fn bmp_every_bit_count() {
    let load = |bits: u16| bmp::load(&info_stream(40, 3, 2, bits));
    assert_eq!(load(1), Ok(meta(ColorMode::Indexed, false, 1, 3, 2)));
    assert_eq!(load(4), Ok(meta(ColorMode::Indexed, false, 4, 3, 2)));
    assert_eq!(load(8), Ok(meta(ColorMode::Indexed, false, 8, 3, 2)));
    assert_eq!(load(16), Ok(meta(ColorMode::Rgb, false, 5, 3, 2)));
    assert_eq!(load(24), Ok(meta(ColorMode::Rgb, false, 8, 3, 2)));
    assert_eq!(load(32), Ok(meta(ColorMode::Rgb, true, 8, 3, 2)));
    for bits in [0u16, 2, 3, 12, 15, 48, 64, 0x0118, 0xffff] {
        assert_eq!(load(bits), corrupt(Corruption::InvalidBitCount(bits)));
    }
}

#[test]
fn bmp_rows_from_the_top_down() {
    assert_eq!(
        bmp::load(&info_stream(40, 507, -370, 24)),
        Ok(meta(ColorMode::Rgb, false, 8, 507, 370))
    );
    assert_eq!(
        bmp::load(&info_stream(40, 1, -1, 24)),
        Ok(meta(ColorMode::Rgb, false, 8, 1, 1))
    );
    assert_eq!(
        bmp::load(&info_stream(40, i32::MAX, i32::MIN, 24)),
        Ok(meta(ColorMode::Rgb, false, 8, 0x7fff_ffff, 0x8000_0000))
    );
    assert_eq!(
        bmp::load(&info_stream(40, 0, i32::MAX, 8)),
        Ok(meta(ColorMode::Indexed, false, 8, 0, 0x7fff_ffff))
    );
}

#[test]
fn bmp_negative_width() {
    assert_eq!(
        bmp::load(&info_stream(40, -1, 370, 24)),
        corrupt(Corruption::NegativeWidth(0xffff_ffff))
    );
    assert_eq!(
        bmp::load(&info_stream(40, i32::MIN, 370, 24)),
        corrupt(Corruption::NegativeWidth(0x8000_0000))
    );
    // The width is judged before the bit count.
    assert_eq!(
        bmp::load(&info_stream(40, -507, 370, 7)),
        corrupt(Corruption::NegativeWidth((-507i32) as u32))
    );
}

#[test]
fn bmp_header_sizes() {
    for size in [16u32, 40, 52, 56, 64, 108, 124, 0xffff_ffff] {
        assert_eq!(
            bmp::load(&info_stream(size, 507, 370, 24)),
            Ok(meta(ColorMode::Rgb, false, 8, 507, 370)),
            "header of {}",
            size
        );
    }
    for size in [0u32, 1, 11, 13, 15] {
        assert_eq!(
            bmp::load(&info_stream(size, 507, 370, 24)),
            corrupt(Corruption::InvalidHeaderSize(size))
        );
    }
}

#[test]
fn bmp_core_header() {
    assert_eq!(bmp::load(&core_stream(507, 370, 24)), Ok(meta(ColorMode::Rgb, false, 8, 507, 370)));
    assert_eq!(
        bmp::load(&core_stream(0xffff, 0x0102, 4)),
        Ok(meta(ColorMode::Indexed, false, 4, 0xffff, 0x0102))
    );
    assert_eq!(bmp::load(&core_stream(1, 1, 5)), corrupt(Corruption::InvalidBitCount(5)));
}

#[test]
fn bmp_signature() {
    assert_eq!(bmp::load(b""), Err(ImageError::UnexpectedEof));
    assert_eq!(bmp::load(b"B"), Err(ImageError::UnexpectedEof));
    assert_eq!(bmp::load(b"MB"), Err(ImageError::InvalidSignature));
    assert_eq!(bmp::load(b"BA\x00\x00\x00\x00"), Err(ImageError::InvalidSignature));
    assert_eq!(bmp::load(b"GIF89a"), Err(ImageError::InvalidSignature));
    assert_eq!(bmp::load(b"BM"), Err(ImageError::UnexpectedEof));
}

#[test]
fn bmp_truncated_streams_want_data() {
    let s = info_stream(40, 507, 370, 24);
    for n in 0..30 {
        assert_eq!(bmp::load(&s[..n]), Err(ImageError::UnexpectedEof), "prefix of {}", n);
    }
    for n in 30..=s.len() {
        assert_eq!(bmp::load(&s[..n]), Ok(meta(ColorMode::Rgb, false, 8, 507, 370)));
    }
    let s = core_stream(507, 370, 8);
    for n in 0..26 {
        assert_eq!(bmp::load(&s[..n]), Err(ImageError::UnexpectedEof), "prefix of {}", n);
    }
    assert_eq!(bmp::load(&s), Ok(meta(ColorMode::Indexed, false, 8, 507, 370)));
}

#[test]
fn bmp_parts_on_their_own() {
    assert_eq!(bmp::describe(7, 9, 24), Ok(meta(ColorMode::Rgb, false, 8, 7, 9)));
    assert_eq!(bmp::describe(7, 9, 9), corrupt(Corruption::InvalidBitCount(9)));
    let s = info_stream(40, 7, 9, 32);
    assert_eq!(bmp::read_header(&s[2..]), Ok((meta(ColorMode::Rgb, true, 8, 7, 9), 28)));
    assert_eq!(
        bmp::read_header(&core_stream(7, 9, 8)[2..]),
        Ok((meta(ColorMode::Indexed, false, 8, 7, 9), 24))
    );
    assert_eq!(bmp::read_header(&s[2..17]), Err(ImageError::UnexpectedEof));
    assert_eq!(bmp::read_info_header(&s[18..]), Ok(meta(ColorMode::Rgb, true, 8, 7, 9)));
    assert_eq!(bmp::read_info_header(&s[18..29]), Err(ImageError::UnexpectedEof));
    let s = core_stream(7, 9, 1);
    assert_eq!(bmp::read_core_header(&s[18..]), Ok(meta(ColorMode::Indexed, false, 1, 7, 9)));
    assert_eq!(bmp::read_core_header(&s[18..25]), Err(ImageError::UnexpectedEof));
}

#[test]
fn bmp_decoding_twice_gives_the_same() {
    let s = info_stream(40, 507, 370, 24);
    assert_eq!(bmp::load(&s), bmp::load(&s));
}

#[test]
fn bmp_load_from_leaves_the_cursor_behind_the_bit_count() {
    let mut s = b"junk".to_vec();
    s.extend_from_slice(&info_stream(40, 507, 370, 24));
    let mut r = Reader::new(&s);
    r.skip(4);
    assert_eq!(bmp::load_from(&mut r), Ok(meta(ColorMode::Rgb, false, 8, 507, 370)));
    assert_eq!(r.tell(), 4 + 30);

    let s = core_stream(507, 370, 24);
    let mut r = Reader::new(&s);
    assert_eq!(bmp::load_from(&mut r), Ok(meta(ColorMode::Rgb, false, 8, 507, 370)));
    assert_eq!(r.tell(), 26);
}

#[test]
fn bmp_load_from_fails_without_moving() {
    let s = info_stream(40, 507, 370, 24);
    for bad in [&s[..29], &info_stream(40, 1, 1, 3)[..], &info_stream(7, 1, 1, 8)[..], b"MB and so on"] {
        let mut r = Reader::new(bad);
        assert!(bmp::load_from(&mut r).is_err());
        assert_eq!(r.tell(), 0);
    }
}
