//! Scaling and encoding: from the finished canvas to PNG bytes.
//!
//! At scale 1 the canvas is encoded as it is. At a larger scale it is first
//! resampled to 32 times the scale in each direction, with a three-lobed
//! Lanczos filter, which keeps small pixel art from turning blocky. PNG is
//! the only output format.

use vstd::prelude::*;
use crate::compose::Canvas;
use crate::error::IconError;
use crate::raster::SIDE;

verus! {

/// The smallest scale factor.
pub const MIN_SCALE: u32 = 1;

/// The largest scale factor.
pub const MAX_SCALE: u32 = 8;

/// The widest image that is ever encoded: a raster at the largest scale.
pub const MAX_SIDE: u32 = 256;

/// True for the scale factors that a request may ask for.
pub open spec fn valid_scale(scale: int) -> bool {
    MIN_SCALE <= scale <= MAX_SCALE
}

/// Number of bytes in a square RGBA image of the given side.
pub open spec fn image_bytes(side: int) -> int {
    4 * side * side
}

/// The PNG file that `image` writes for an RGBA image of the given width,
/// height and pixel bytes.
pub uninterp spec fn png_encoding(width: u32, height: u32, rgba: Seq<u8>) -> Seq<u8>;

/// True when `result` is what `image` gave when it resampled the square
/// image `source` of side `side` to the side `target` with the three-lobed
/// Lanczos filter. This is a relation and no function: the filter is
/// computed in floating point, with a sine whose last digit may differ from
/// one machine to the next, so nothing says that the same image gives the
/// same result twice.
pub uninterp spec fn is_resampling(source: Seq<u8>, side: u32, target: u32, result: Seq<u8>) -> bool;

/// Calls `image::RgbaImage::from_raw` and then `image::DynamicImage::write_to`
/// with `ImageFormat::Png`, into memory. Claimed here: for an image of at
/// least one pixel with as many bytes as its size asks for, a file is
/// written, and which file depends on the width, the height and the pixel
/// bytes alone. The encoder refuses an empty image, a wrong number of bytes
/// and a writer that fails, and none of these can be here.
#[verifier::external_body]
fn write_png(width: u32, height: u32, rgba: &Vec<u8>) -> (r: Option<Vec<u8>>)
    requires
        1 <= width <= MAX_SIDE,
        1 <= height <= MAX_SIDE,
        rgba@.len() == 4 * width * height,
    ensures
        r is Some,
        r matches Some(file) ==> file@ == png_encoding(width, height, rgba@),
{
    let image = image::RgbaImage::from_raw(width, height, rgba.clone())?;
    let mut file: Vec<u8> = Vec::new();
    let mut cursor = std::io::Cursor::new(&mut file);
    image::DynamicImage::ImageRgba8(image).write_to(&mut cursor, image::ImageFormat::Png).ok()?;
    Some(file)
}

/// Calls `image::RgbaImage::from_raw` and then `image::imageops::resize` with
/// `FilterType::Lanczos3`. Claimed here: with as many bytes as the side asks
/// for, an image comes back, it is a square RGBA image of side `target`, and
/// it is a resampling of what was handed in. The pixel values are left open.
#[verifier::external_body]
fn resample(rgba: &Vec<u8>, side: u32, target: u32) -> (r: Option<Vec<u8>>)
    requires
        1 <= side <= MAX_SIDE,
        1 <= target <= MAX_SIDE,
        rgba@.len() == image_bytes(side as int),
    ensures
        r is Some,
        r matches Some(pixels) ==> pixels@.len() == image_bytes(target as int),
        r matches Some(pixels) ==> is_resampling(rgba@, side, target, pixels@),
{
    let image = image::RgbaImage::from_raw(side, side, rgba.clone())?;
    let filter = image::imageops::FilterType::Lanczos3;
    Some(image::imageops::resize(&image, target, target, filter).into_raw())
}

/// True for a square image that can be encoded: a side from 1 to
/// [`MAX_SIDE`], and as many bytes as the side asks for.
pub open spec fn encodable(rgba: Seq<u8>, side: u32) -> bool {
    1 <= side <= MAX_SIDE && rgba.len() == image_bytes(side as int)
}

/// The result of encoding a square image of the given side: the PNG file,
/// or an encode failure where the side is 0 or above [`MAX_SIDE`] or the
/// number of bytes does not fit the side.
pub open spec fn encoded(rgba: Seq<u8>, side: u32) -> Result<Seq<u8>, IconError> {
    if encodable(rgba, side) {
        Ok(png_encoding(side, side, rgba))
    } else {
        Err(IconError::EncodeFailure)
    }
}

/// True when `r` is the executable form of `outcome`.
pub open spec fn is_outcome(r: Result<Vec<u8>, IconError>, outcome: Result<Seq<u8>, IconError>) -> bool {
    match outcome {
        Ok(file) => r matches Ok(bytes) && bytes@ == file,
        Err(e) => r matches Err(f) && f == e,
    }
}

/// Encodes a square RGBA image as PNG.
///
/// A side of 0 or above [`MAX_SIDE`], and a number of bytes that does not
/// fit the side, fail with [`IconError::EncodeFailure`]. Every other image
/// is encoded.
pub fn encode(rgba: &Vec<u8>, side: u32) -> (r: Result<Vec<u8>, IconError>)
    ensures
        is_outcome(r, encoded(rgba@, side)),
        r is Ok <==> encodable(rgba@, side),
{
    if side < 1 || side > MAX_SIDE {
        return Err(IconError::EncodeFailure);
    }
    let width: usize = side as usize;
    assert(width * width <= 65536) by (nonlinear_arith)
        requires
            1 <= width <= 256,
    ;
    let area: usize = width * width;
    let expected: usize = 4 * area;
    assert(expected == image_bytes(side as int) && expected == 4 * side * side)
        by (nonlinear_arith)
        requires
            area == width * width,
            expected == 4 * area,
            width == side,
    ;
    if rgba.len() != expected {
        return Err(IconError::EncodeFailure);
    }
    match write_png(side, side, rgba) {
        Some(file) => Ok(file),
        None => Err(IconError::EncodeFailure),
    }
}

/// True when `r` is a possible result of finishing a canvas at a scale.
///
/// Outside 1 to 8 the scale is refused. At scale 1 the result is the
/// encoding of the canvas. At a larger scale it is the encoding of a
/// resampling of the canvas to 32 times the scale in each direction.
pub open spec fn finished(canvas: Seq<u8>, scale: u32, r: Result<Vec<u8>, IconError>) -> bool {
    if !valid_scale(scale as int) {
        r matches Err(e) && e == IconError::InvalidScale
    } else if scale == 1 {
        is_outcome(r, encoded(canvas, SIDE))
    } else {
        exists|resampled: Seq<u8>|
            {
                &&& #[trigger] is_resampling(canvas, SIDE, (SIDE * scale) as u32, resampled)
                &&& encodable(resampled, (SIDE * scale) as u32)
                &&& is_outcome(r, encoded(resampled, (SIDE * scale) as u32))
            }
    }
}

/// Scales the canvas by a whole factor and encodes it as PNG.
///
/// A scale outside 1 to 8 fails with [`IconError::InvalidScale`]. At every
/// scale from 1 to 8 an image comes back.
pub fn finish(canvas: &Canvas, scale: u32) -> (r: Result<Vec<u8>, IconError>)
    ensures
        finished(canvas@, scale, r),
        r is Ok <==> valid_scale(scale as int),
{
    if scale < MIN_SCALE || scale > MAX_SCALE {
        return Err(IconError::InvalidScale);
    }
    let pixels: &Vec<u8> = canvas.bytes();
    assert(pixels@.len() == image_bytes(SIDE as int));
    if scale == 1 {
        return encode(pixels, SIDE);
    }
    let target: u32 = SIDE * scale;
    match resample(pixels, SIDE, target) {
        Some(resampled) => {
            let r = encode(&resampled, target);
            assert(is_resampling(canvas@, SIDE, (SIDE * scale) as u32, resampled@));
            r
        },
        None => Err(IconError::EncodeFailure),
    }
}

/// A square image has one encoding: two results of encoding the same bytes
/// at the same side are the same file or the same failure.
pub proof fn lemma_one_encoding(
    rgba: Seq<u8>,
    side: u32,
    first: Result<Vec<u8>, IconError>,
    second: Result<Vec<u8>, IconError>,
)
    requires
        is_outcome(first, encoded(rgba, side)),
        is_outcome(second, encoded(rgba, side)),
    ensures
        first is Ok <==> second is Ok,
        first matches Ok(a) ==> (second matches Ok(b) && a@ == b@),
        first matches Err(e) ==> (second matches Err(f) && e == f),
{
}

/// Finishing succeeds exactly at the scales from 1 to 8, whatever the
/// canvas holds.
pub proof fn lemma_finish_succeeds(canvas: Seq<u8>, scale: u32, r: Result<Vec<u8>, IconError>)
    requires
        canvas.len() == image_bytes(SIDE as int),
        finished(canvas, scale, r),
    ensures
        r is Ok <==> valid_scale(scale as int),
        r matches Err(e) ==> e == IconError::InvalidScale,
{
}

} // verus!
