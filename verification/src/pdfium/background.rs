//! The PNG image of a page's raster background.

use vstd::prelude::*;

use crate::model::RasterBackground;

verus! {

/// The PNG file that the `image` crate's PNG encoder, with its default
/// compression and filtering, writes for a `width` by `height` image of
/// 8-bit RGBA pixels `rgba`, or `None` when the encoder refuses it.
pub uninterp spec fn png_encoding(width: u32, height: u32, rgba: Seq<u8>) -> Option<Seq<u8>>;

/// `image::codecs::png::PngEncoder::write_image` with 8-bit RGBA pixels,
/// writing into a fresh buffer. The encoder panics unless the buffer holds
/// exactly four bytes per pixel. Its output depends on the arguments alone;
/// the contract names it `png_encoding` and says nothing more of it.
#[verifier::external_body]
fn write_png_rgba(width: u32, height: u32, rgba: &[u8]) -> (png: Option<Vec<u8>>)
    requires
        rgba@.len() == 4 * width * height,
    ensures
        match png {
            Some(bytes) => png_encoding(width, height, rgba@) == Some(bytes@),
            None => png_encoding(width, height, rgba@) is None,
        },
{
    let mut png = Vec::new();
    let encoder = image::codecs::png::PngEncoder::new(&mut png);
    match image::ImageEncoder::write_image(encoder, rgba, width, height, image::ExtendedColorType::Rgba8) {
        Ok(()) => Some(png),
        Err(_) => None,
    }
}

/// The raster background of a rendered page `width` by `height` pixels
/// large, whose pixels are `rgba` (four bytes each): its size and its PNG
/// image. Nothing when the pixels do not fill the page or the image cannot
/// be encoded.
pub fn raster_background(width: u32, height: u32, rgba: &[u8]) -> (background: Option<RasterBackground>)
    ensures
        rgba@.len() != 4 * width * height ==> background is None,
        rgba@.len() == 4 * width * height ==> match png_encoding(width, height, rgba@) {
            Some(png) => background matches Some(b) && b.width == width && b.height == height
                && b.png@ == png,
            None => background is None,
        },
{
    let length = rgba.len();
    assert(length as u64 == length);
    assert(rgba@.len() == length);
    let pixels = match (width as u64).checked_mul(height as u64) {
        Some(p) => p,
        None => {
            assert(rgba@.len() != 4 * width * height) by (nonlinear_arith)
                requires
                    width * height > u64::MAX,
                    rgba@.len() <= u64::MAX,
            ;
            return None;
        },
    };
    let expected = match pixels.checked_mul(4) {
        Some(e) => e,
        None => {
            assert(rgba@.len() != 4 * width * height) by (nonlinear_arith)
                requires
                    pixels == width * height,
                    pixels * 4 > u64::MAX,
                    rgba@.len() <= u64::MAX,
            ;
            return None;
        },
    };
    assert(expected == 4 * width * height) by (nonlinear_arith)
        requires
            pixels == width * height,
            expected == pixels * 4,
    ;
    if length as u64 != expected {
        return None;
    }
    match write_png_rgba(width, height, rgba) {
        Some(png) => Some(RasterBackground { width, height, png }),
        None => None,
    }
}

} // verus!
