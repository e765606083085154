//! Watermarking: where the watermark goes on an image, and how strongly the
//! image is compressed.

use vstd::prelude::*;

verus! {

/// Quality, in percent, at which an image is compressed before it is
/// watermarked.
pub const COMPRESSION_QUALITY: u8 = 90;

/// Width and height of an image, in pixels.
#[derive(Clone, Copy, Debug, PartialEq, Eq)]
pub struct ImageSize {
    pub width: u32,
    pub height: u32,
}

/// Where the top left corner of an overlay goes, in pixels from the top left
/// corner of the image below it. A negative coordinate lies outside that
/// image.
#[derive(Clone, Copy, Debug, PartialEq, Eq)]
pub struct Position {
    pub x: i64,
    pub y: i64,
}

/// The position at which the bottom right corner of a watermark of size
/// `mark` meets the bottom right corner of an image of size `image`.
pub fn watermark_position(image: ImageSize, mark: ImageSize) -> (position: Position)
    ensures
        position.x == image.width - mark.width,
        position.y == image.height - mark.height,
{
    Position {
        x: image.width as i64 - mark.width as i64,
        y: image.height as i64 - mark.height as i64,
    }
}

} // verus!
