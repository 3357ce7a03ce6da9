use vstd::prelude::*;

verus! {

/// The container formats that can be recognised.
#[derive(Clone, Copy, Debug, PartialEq, Eq, Structural)]
pub enum Format {
    Bmp,
    Gif,
    Jpeg,
    Png,
    Webp,
}

/// How a pixel's samples are to be interpreted.
#[derive(Clone, Copy, Debug, PartialEq, Eq, Structural)]
pub enum ColorMode {
    Grayscale,
    Indexed,
    Rgb,
    Cmyk,
}

/// The colour model of an image: its mode, whether an alpha channel is
/// present, and the number of bits per sample.
#[derive(Clone, Copy, Debug, PartialEq, Eq, Structural)]
pub struct Color {
    pub mode: ColorMode,
    pub alpha_channel: bool,
    pub resolution: u8,
}

/// Width and height in pixels, as the header record declares them.
#[derive(Clone, Copy, Debug, PartialEq, Eq, Structural)]
pub struct Dimensions {
    pub width: u32,
    pub height: u32,
}

/// A four-byte record tag, in the order of the bytes in the stream.
#[derive(Clone, Copy, Debug, PartialEq, Eq, Structural)]
pub struct Tag(pub u8, pub u8, pub u8, pub u8);

impl Tag {
    /// The tag that the first four bytes of `bytes` spell.
    pub open spec fn of(bytes: Seq<u8>) -> Tag
        recommends
            bytes.len() >= 4,
    {
        Tag(bytes[0], bytes[1], bytes[2], bytes[3])
    }

    /// Reads the tag at the start of `bytes`.
    pub fn from_slice(bytes: &[u8]) -> (r: Tag)
        requires
            bytes@.len() >= 4,
        ensures
            r == Tag::of(bytes@),
    {
        Tag(bytes[0], bytes[1], bytes[2], bytes[3])
    }
}

/// What a decoder reports of one image.
#[derive(Clone, Copy, Debug, PartialEq, Eq)]
pub struct ImageMeta {
    pub animation_frames: Option<usize>,
    pub color: Color,
    pub dimensions: Dimensions,
    pub format: Format,
}

impl ImageMeta {
    /// Whether the image was found to be animated.
    pub fn is_animation(&self) -> (r: bool)
        ensures
            r == self.animation_frames.is_some(),
    {
        self.animation_frames.is_some()
    }
}

} // verus!
