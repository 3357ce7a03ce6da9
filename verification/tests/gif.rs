use image_meta::errors::ImageError;
use image_meta::gif;
use image_meta::reader::Reader;
use image_meta::types::{Color, ColorMode, Dimensions, Format, ImageMeta};

fn stream(version: &[u8; 6], width: u16, height: u16, packed: u8) -> Vec<u8> {
    let mut v = version.to_vec();
    v.extend_from_slice(&width.to_le_bytes());
    v.extend_from_slice(&height.to_le_bytes());
    v.extend_from_slice(&[packed, 0, 0]);
    v.extend_from_slice(&[0x21, 0xf9, 0x04, 0, 0, 0, 0, 0]);
    v
}

fn meta(resolution: u8, width: u32, height: u32) -> ImageMeta {
    ImageMeta {
        animation_frames: None,
        color: Color { mode: ColorMode::Indexed, alpha_channel: false, resolution },
        dimensions: Dimensions { width, height },
        format: Format::Gif,
    }
}

#[test]
fn gif_both_versions() {
    assert_eq!(gif::load(&stream(b"GIF87a", 507, 370, 0xf7)), Ok(meta(8, 507, 370)));
    assert_eq!(gif::load(&stream(b"GIF89a", 507, 370, 0xf7)), Ok(meta(8, 507, 370)));
}

#[test]
fn gif_resolution_is_bits_four_to_six_plus_one() {
    for packed in 0u8..=255 {
        let expected = ((packed >> 4) & 0x07) + 1;
        assert_eq!(
            gif::load(&stream(b"GIF89a", 1, 1, packed)),
            Ok(meta(expected, 1, 1)),
            "packed {:x}",
            packed
        );
    }
    assert_eq!(gif::load(&stream(b"GIF89a", 1, 1, 0x00)), Ok(meta(1, 1, 1)));
    assert_eq!(gif::load(&stream(b"GIF89a", 1, 1, 0x8f)), Ok(meta(1, 1, 1)));
    assert_eq!(gif::load(&stream(b"GIF89a", 1, 1, 0x10)), Ok(meta(2, 1, 1)));
    assert_eq!(gif::load(&stream(b"GIF89a", 1, 1, 0x70)), Ok(meta(8, 1, 1)));
}

#[test]
fn gif_little_endian_fields() {
    assert_eq!(gif::load(&stream(b"GIF89a", 0x0102, 0xfffe, 0x70)), Ok(meta(8, 0x0102, 0xfffe)));
    assert_eq!(
        gif::load(b"GIF87a\x02\x01\xfe\xff\x70\x00\x00"),
        Ok(meta(8, 0x0102, 0xfffe))
    );
}

#[test]
fn gif_signature() {
    assert_eq!(gif::load(b""), Err(ImageError::UnexpectedEof));
    assert_eq!(gif::load(b"GIF89"), Err(ImageError::UnexpectedEof));
    assert_eq!(gif::load(b"GIF88a\x01\x00\x01\x00\x00\x00\x00"), Err(ImageError::InvalidSignature));
    assert_eq!(gif::load(b"GIF89b\x01\x00\x01\x00\x00\x00\x00"), Err(ImageError::InvalidSignature));
    assert_eq!(gif::load(b"gif89a\x01\x00\x01\x00\x00\x00\x00"), Err(ImageError::InvalidSignature));
    assert_eq!(gif::load(b"\x89PNG\r\n\x1a\n"), Err(ImageError::InvalidSignature));
}

#[test]
fn gif_truncated_streams_want_data() {
    let s = stream(b"GIF89a", 507, 370, 0xf7);
    for n in 0..13 {
        assert_eq!(gif::load(&s[..n]), Err(ImageError::UnexpectedEof), "prefix of {}", n);
    }
    for n in 13..=s.len() {
        assert_eq!(gif::load(&s[..n]), Ok(meta(8, 507, 370)));
    }
}

#[test]
fn gif_readers_move_the_cursor() {
    let s = stream(b"GIF89a", 507, 370, 0xf7);
    let mut r = Reader::new(&s);
    assert_eq!(gif::read_signature(&mut r), Ok(()));
    assert_eq!(r.tell(), 6);
    assert_eq!(gif::read_descriptor(&mut r), Ok(meta(8, 507, 370)));
    assert_eq!(r.tell(), 13);

    let mut r = Reader::new(&s[..12]);
    assert_eq!(gif::read_signature(&mut r), Ok(()));
    assert_eq!(gif::read_descriptor(&mut r), Err(ImageError::UnexpectedEof));
    assert_eq!(r.tell(), 6);

    let mut r = Reader::new(b"GIF00a__");
    assert_eq!(gif::read_signature(&mut r), Err(ImageError::InvalidSignature));
    assert_eq!(r.tell(), 6);

    let mut r = Reader::new(b"GIF");
    assert_eq!(gif::read_signature(&mut r), Err(ImageError::UnexpectedEof));
    assert_eq!(r.tell(), 0);
}

#[test]
fn gif_decoding_twice_gives_the_same() {
    let s = stream(b"GIF89a", 507, 370, 0xf7);
    assert_eq!(gif::load(&s), gif::load(&s));
}

#[test]
fn gif_load_from_moves_on_success_only() {
    let mut s = b"..".to_vec();
    s.extend_from_slice(&stream(b"GIF89a", 507, 370, 0xf7));
    let mut r = Reader::new(&s);
    r.skip(2);
    assert_eq!(gif::load_from(&mut r), Ok(meta(8, 507, 370)));
    assert_eq!(r.tell(), 2 + 13);

    for bad in [&s[2..14], &b"GIF90a\x01\x00\x01\x00\x00\x00\x00"[..], &b"GIF"[..]] {
        let mut r = Reader::new(bad);
        assert!(gif::load_from(&mut r).is_err());
        assert_eq!(r.tell(), 0);
    }
}
