//! Structural metadata of raster images, read from the leading bytes of the
//! encoded stream: pixel dimensions, colour model, bit depth, alpha presence
//! and animation frames. No pixel data is decoded.
//!
//! Each format has a module of its own, with a `load` that takes the bytes
//! of a stream and a specification function `decode` that says what `load`
//! returns. `loader` tells the format by its signature and hands the stream
//! to the decoder in charge.

pub mod bmp;
pub mod bytes;
pub mod errors;
pub mod gif;
pub mod jpeg;
pub mod loader;
pub mod png;
pub mod reader;
pub mod types;
pub mod webp;

pub use crate::errors::{Corruption, ImageError, ImageResult};
pub use crate::loader::{guess_format, load_from_buf};
pub use crate::types::{Color, ColorMode, Dimensions, Format, ImageMeta, Tag};
