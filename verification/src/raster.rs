//! The image types of the `image` crate that spritesheets hold, and the
//! calls into it that building a spritesheet makes.

use vstd::prelude::*;

use image::{DynamicImage, ImageBuffer, Rgba};

verus! {

#[verifier::external_type_specification]
#[verifier::external_body]
pub struct ExDynamicImage(DynamicImage);

/// An 8-bit RGBA image buffer of the `image` crate. Verus does not accept a
/// declaration of the generic `ImageBuffer` (its bounds name outside traits),
/// so the buffer is held here, out of Verus's sight.
#[verifier::external_body]
pub struct RgbaImage {
    buffer: ImageBuffer<Rgba<u8>, Vec<u8>>,
}

/// The RGBA copy that `DynamicImage::to_rgba` makes of an image.
pub uninterp spec fn rgba_copy(image: DynamicImage) -> RgbaImage;

/// The width and the height that an RGBA image buffer holds.
pub uninterp spec fn rgba_dimensions(image: RgbaImage) -> (u32, u32);

/// Calls `image::DynamicImage::to_rgba`, which converts every pixel of the
/// image to 8-bit RGBA into a new buffer. The contract names the result: the
/// same image gives the same copy.
#[verifier::external_body]
#[allow(deprecated)]
pub(crate) fn to_rgba(image: &DynamicImage) -> (res: RgbaImage)
    ensures
        res == rgba_copy(*image),
{
    RgbaImage { buffer: image.to_rgba() }
}

/// Calls `image::ImageBuffer::dimensions`, which returns the buffer's width
/// and height fields as they are.
#[verifier::external_body]
pub(crate) fn rgba_image_dimensions(image: &RgbaImage) -> (d: (u32, u32))
    ensures
        d == rgba_dimensions(*image),
{
    image.buffer.dimensions()
}

} // verus!
