//! PNG images of the clipboard history: decoding, thumbnails and encoding go
//! through the `image` crate; what the history decides about them is here.

use crate::bitmap::{
    decode_dib, dib_of, dib_problem, dib_rgba, dib_rows, dib_width, encode_dib, Bitmap, ImageError,
};
use image::ImageEncoder;
use vstd::prelude::*;

verus! {

/// What `image::load_from_memory_with_format(bytes, ImageFormat::Png)` decodes
/// `bytes` to, as width, height and 8-bit RGBA pixels, if it decodes them.
pub uninterp spec fn png_rgba(bytes: Seq<u8>) -> Option<(u32, u32, Seq<u8>)>;

/// What `image::codecs::png::PngEncoder` (fast compression, adaptive filter)
/// writes for an 8-bit RGBA image, if it succeeds.
pub uninterp spec fn png_encoding(width: u32, height: u32, rgba: Seq<u8>) -> Option<Seq<u8>>;

/// What `DynamicImage::thumbnail(edge, edge)` makes of the PNG `bytes`: the
/// full-size width and height, then the width, height and 8-bit RGBA pixels of
/// the thumbnail, if the PNG decodes.
pub uninterp spec fn png_thumbnail(bytes: Seq<u8>, edge: u32) -> Option<
    (u32, u32, u32, u32, Seq<u8>),
>;

/// What `DynamicImage::thumbnail(edge, edge)` makes of the image in `bytes`,
/// whose format `image::load_from_memory` guesses: width, height and 8-bit
/// RGBA pixels, if the image decodes.
pub uninterp spec fn image_thumbnail(bytes: Seq<u8>, edge: u32) -> Option<(u32, u32, Seq<u8>)>;

/// Calls `image::load_from_memory_with_format` with the PNG format and converts
/// the result to 8-bit RGBA. Claimed: the result is `png_rgba(bytes)`, and the
/// pixel buffer of an `RgbaImage` holds four bytes per pixel.
#[verifier::external_body]
pub(crate) fn decode_png(bytes: &[u8]) -> (r: Option<Bitmap>)
    ensures
        match r {
            Some(b) => png_rgba(bytes@) == Some((b.width, b.height, b.pixels@)) && b.well_formed(),
            None => png_rgba(bytes@) is None,
        },
{
    match image::load_from_memory_with_format(bytes, image::ImageFormat::Png) {
        Ok(decoded) => {
            let rgba = decoded.to_rgba8();
            Some(Bitmap { width: rgba.width(), height: rgba.height(), pixels: rgba.into_raw() })
        },
        Err(_) => None,
    }
}

/// Calls `PngEncoder::write_image` with fast compression and adaptive filtering
/// on 8-bit RGBA pixels. Claimed: the result is `png_encoding` of the image.
/// The encoder panics on a buffer of the wrong length, which `requires` excludes.
#[verifier::external_body]
pub(crate) fn encode_png(image: &Bitmap) -> (r: Option<Vec<u8>>)
    requires
        image.well_formed(),
    ensures
        match r {
            Some(png) => png_encoding(image.width, image.height, image.pixels@) == Some(png@),
            None => png_encoding(image.width, image.height, image.pixels@) is None,
        },
{
    let mut output = Vec::new();
    let encoder = image::codecs::png::PngEncoder::new_with_quality(
        &mut output,
        image::codecs::png::CompressionType::Fast,
        image::codecs::png::FilterType::Adaptive,
    );
    match encoder.write_image(&image.pixels, image.width, image.height, image::ExtendedColorType::Rgba8) {
        Ok(()) => Some(output),
        Err(_) => None,
    }
}

/// Decodes `bytes` as PNG, keeps its size, and calls `DynamicImage::thumbnail`
/// to fit it in `edge` by `edge`, converting the thumbnail to 8-bit RGBA.
/// Claimed: the result is `png_thumbnail(bytes, edge)`, the thumbnail fits the
/// bounds (as `thumbnail`'s documentation says), and its buffer holds four bytes
/// per pixel.
#[verifier::external_body]
pub(crate) fn decode_png_thumbnail(bytes: &[u8], edge: u32) -> (r: Option<(u32, u32, Bitmap)>)
    requires
        edge >= 1,
    ensures
        match r {
            Some((w, h, t)) => png_thumbnail(bytes@, edge) == Some((w, h, t.width, t.height, t.pixels@))
                && t.well_formed() && t.width <= edge && t.height <= edge,
            None => png_thumbnail(bytes@, edge) is None,
        },
{
    match image::load_from_memory_with_format(bytes, image::ImageFormat::Png) {
        Ok(decoded) => {
            let rgba = decoded.thumbnail(edge, edge).to_rgba8();
            Some((
                decoded.width(),
                decoded.height(),
                Bitmap { width: rgba.width(), height: rgba.height(), pixels: rgba.into_raw() },
            ))
        },
        Err(_) => None,
    }
}

/// Calls `image::load_from_memory`, then `DynamicImage::thumbnail(edge, edge)`,
/// converting the thumbnail to 8-bit RGBA. Claimed: the result is
/// `image_thumbnail(bytes, edge)`, it fits the bounds, and its buffer holds four
/// bytes per pixel.
#[verifier::external_body]
pub(crate) fn decode_image_thumbnail(bytes: &[u8], edge: u32) -> (r: Option<Bitmap>)
    requires
        edge >= 1,
    ensures
        match r {
            Some(t) => image_thumbnail(bytes@, edge) == Some((t.width, t.height, t.pixels@))
                && t.well_formed() && t.width <= edge && t.height <= edge,
            None => image_thumbnail(bytes@, edge) is None,
        },
{
    match image::load_from_memory(bytes) {
        Ok(decoded) => {
            let rgba = decoded.thumbnail(edge, edge).to_rgba8();
            Some(Bitmap { width: rgba.width(), height: rgba.height(), pixels: rgba.into_raw() })
        },
        Err(_) => None,
    }
}

/// The PNG that a decodable DIB converts to.
pub open spec fn png_of_dib(dib: Seq<u8>) -> Option<Seq<u8>> {
    png_encoding(dib_width(dib) as u32, dib_rows(dib) as u32, dib_rgba(dib))
}

/// Converts a clipboard DIB to PNG.
pub fn dib_to_png(dib: &[u8]) -> (r: Result<Vec<u8>, ImageError>)
    requires
        dib@.len() <= isize::MAX,
    ensures
        match dib_problem(dib@) {
            Some(e) => r == Err::<Vec<u8>, ImageError>(e),
            None => match png_of_dib(dib@) {
                Some(png) => r matches Ok(p) && p@ == png,
                None => r == Err::<Vec<u8>, ImageError>(ImageError::EncodeFailed),
            },
        },
{
    let decoded = decode_dib(dib);
    match decoded {
        Err(e) => Err(e),
        Ok(bitmap) => {
            proof {
                assert(bitmap.pixels@.len() == bitmap.width * bitmap.height * 4);
            }
            match encode_png(&bitmap) {
                Some(png) => Ok(png),
                None => Err(ImageError::EncodeFailed),
            }
        },
    }
}

/// Converts a PNG from the history to a 32-bit DIB for the clipboard.
pub fn png_to_dib(png: &[u8]) -> (r: Result<Vec<u8>, ImageError>)
    ensures
        match png_rgba(png@) {
            None => r == Err::<Vec<u8>, ImageError>(ImageError::Undecodable),
            Some((w, h, px)) => if w > i32::MAX {
                r == Err::<Vec<u8>, ImageError>(ImageError::TooWide)
            } else if h > i32::MAX {
                r == Err::<Vec<u8>, ImageError>(ImageError::TooTall)
            } else if w * h * 4 > u32::MAX {
                r == Err::<Vec<u8>, ImageError>(ImageError::TooLarge)
            } else {
                r matches Ok(d) && d@ == dib_of(w as int, h as int, px)
            },
        },
{
    match decode_png(png) {
        None => Err(ImageError::Undecodable),
        Some(bitmap) => encode_dib(&bitmap),
    }
}

/// Accepts clipboard image data no larger than `max_input_bytes`: PNG data that
/// decodes to a non-empty image is kept as it is, and a DIB is converted to PNG.
pub fn normalize_image_to_png(bytes: &[u8], source_is_png: bool, max_input_bytes: u64) -> (r: Result<
    Vec<u8>,
    ImageError,
>)
    requires
        bytes@.len() <= isize::MAX,
    ensures
        bytes@.len() > max_input_bytes ==> r == Err::<Vec<u8>, ImageError>(
            ImageError::InputTooLarge,
        ),
        bytes@.len() <= max_input_bytes && source_is_png ==> match png_rgba(bytes@) {
            None => r == Err::<Vec<u8>, ImageError>(ImageError::Undecodable),
            Some((w, h, px)) => if w == 0 || h == 0 {
                r == Err::<Vec<u8>, ImageError>(ImageError::Empty)
            } else {
                r matches Ok(p) && p@ == bytes@
            },
        },
        bytes@.len() <= max_input_bytes && !source_is_png ==> match dib_problem(bytes@) {
            Some(e) => r == Err::<Vec<u8>, ImageError>(e),
            None => match png_of_dib(bytes@) {
                Some(png) => r matches Ok(p) && p@ == png,
                None => r == Err::<Vec<u8>, ImageError>(ImageError::EncodeFailed),
            },
        },
{
    if bytes.len() as u64 > max_input_bytes {
        return Err(ImageError::InputTooLarge);
    }
    if source_is_png {
        match decode_png(bytes) {
            None => Err(ImageError::Undecodable),
            Some(image) => {
                if image.width == 0 || image.height == 0 {
                    Err(ImageError::Empty)
                } else {
                    Ok(vstd::slice::slice_to_vec(bytes))
                }
            },
        }
    } else {
        dib_to_png(bytes)
    }
}

/// Size of the thumbnails that the history keeps.
pub const THUMBNAIL_EDGE: u32 = 96;

/// The width and height of a PNG and the PNG of its thumbnail that fits in
/// `THUMBNAIL_EDGE` by `THUMBNAIL_EDGE`.
pub fn png_metadata_and_thumbnail(png: &[u8]) -> (r: Result<(u32, u32, Vec<u8>), ImageError>)
    ensures
        match png_thumbnail(png@, THUMBNAIL_EDGE) {
            None => r == Err::<(u32, u32, Vec<u8>), ImageError>(ImageError::Undecodable),
            Some((w, h, tw, th, tpx)) => match png_encoding(tw, th, tpx) {
                Some(thumb) => r matches Ok((rw, rh, t)) && rw == w && rh == h && t@ == thumb,
                None => r == Err::<(u32, u32, Vec<u8>), ImageError>(ImageError::EncodeFailed),
            },
        },
{
    match decode_png_thumbnail(png, THUMBNAIL_EDGE) {
        None => Err(ImageError::Undecodable),
        Some((width, height, thumbnail)) => match encode_png(&thumbnail) {
            Some(encoded) => Ok((width, height, encoded)),
            None => Err(ImageError::EncodeFailed),
        },
    }
}

} // verus!
