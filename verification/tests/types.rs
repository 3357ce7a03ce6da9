use image_meta::{Color, ColorMode, Dimensions, Format, ImageError, ImageMeta, ImageResult, Tag};

fn meta(frames: Option<usize>) -> ImageMeta {
    ImageMeta {
        animation_frames: frames,
        color: Color { mode: ColorMode::Rgb, alpha_channel: true, resolution: 8 },
        dimensions: Dimensions { width: 507, height: 370 },
        format: Format::Webp,
    }
}

#[test]
fn meta_is_animation() {
    assert!(!meta(None).is_animation());
    assert!(meta(Some(0)).is_animation());
    assert!(meta(Some(12)).is_animation());
}

#[test]
fn tag_from_slice_takes_the_first_four_bytes() {
    assert_eq!(Tag::from_slice(b"IHDR"), Tag(b'I', b'H', b'D', b'R'));
    assert_eq!(Tag::from_slice(b"VP8 and more"), Tag(b'V', b'P', b'8', b' '));
    assert_ne!(Tag::from_slice(b"RDHI"), Tag(b'I', b'H', b'D', b'R'));
}

#[test]
fn root_names_the_entry_points() {
    let r: ImageResult<ImageMeta> = image_meta::load_from_buf(b"GIF89a\x01\x00\x02\x00\x70\x00\x00");
    assert_eq!(r.map(|m| m.dimensions), Ok(Dimensions { width: 1, height: 2 }));
    assert_eq!(image_meta::guess_format(b"BM0123456789"), Ok(Format::Bmp));
    assert_eq!(image_meta::guess_format(b"??0123456789"), Err(ImageError::UnsupportedFormat));
}
