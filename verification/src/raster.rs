//! Rasters: the decoded form of one layer.
//!
//! Every raster is 32 pixels wide and 32 pixels high. A pixel is four bytes,
//! red, green, blue and alpha, and the rows follow one another from the top.
//! The bytes are the stored bytes: no colour conversion is made and alpha is
//! not premultiplied.

use vstd::prelude::*;
use crate::error::IconError;

verus! {

/// Width and height of every raster, in pixels.
pub const SIDE: u32 = 32;

/// Number of pixels in a raster.
pub const PIXELS: usize = 1024;

/// Number of bytes in a raster.
pub const RASTER_BYTES: usize = 4096;

/// One decoded layer: [`RASTER_BYTES`] bytes of RGBA pixels.
#[derive(Debug)]
pub struct Raster {
    pixels: Vec<u8>,
}

impl View for Raster {
    type V = Seq<u8>;

    closed spec fn view(&self) -> Seq<u8> {
        self.pixels@
    }
}

/// The raster that `bytes` decode to: the bytes themselves where there are
/// exactly [`RASTER_BYTES`] of them, and none otherwise.
pub open spec fn decoded(bytes: Seq<u8>) -> Option<Seq<u8>> {
    if bytes.len() == RASTER_BYTES {
        Some(bytes)
    } else {
        None
    }
}

impl Raster {
    #[verifier::type_invariant]
    spec fn well_formed(self) -> bool {
        self.pixels@.len() == RASTER_BYTES
    }

    /// The bytes of the raster, row by row.
    pub fn bytes(&self) -> (b: &Vec<u8>)
        ensures
            b@ == self@,
            b@.len() == RASTER_BYTES,
    {
        proof {
            use_type_invariant(self);
        }
        &self.pixels
    }

    /// A copy of the bytes of the raster.
    pub fn to_vec(&self) -> (copy: Vec<u8>)
        ensures
            copy@ == self@,
            copy@.len() == RASTER_BYTES,
    {
        proof {
            use_type_invariant(self);
        }
        let mut pixels: Vec<u8> = Vec::with_capacity(RASTER_BYTES);
        let mut i: usize = 0;
        while i < RASTER_BYTES
            invariant
                self.pixels@.len() == RASTER_BYTES,
                i <= RASTER_BYTES,
                pixels@ == self.pixels@.take(i as int),
            decreases RASTER_BYTES - i,
        {
            pixels.push(self.pixels[i]);
            assert(pixels@ =~= self.pixels@.take(i + 1));
            i = i + 1;
        }
        assert(pixels@ =~= self.pixels@);
        pixels
    }

    /// A copy of the raster.
    pub fn duplicate(&self) -> (copy: Raster)
        ensures
            copy@ == self@,
    {
        Raster { pixels: self.to_vec() }
    }
}

/// Decodes the bytes of one record into a raster.
///
/// The bytes are taken as they are, as 32 rows of 32 RGBA pixels. Any other
/// number of bytes than [`RASTER_BYTES`] fails with
/// [`IconError::DecodeFailure`]: nothing is cut off, padded or resized.
pub fn decode(bytes: Vec<u8>) -> (r: Result<Raster, IconError>)
    ensures
        match decoded(bytes@) {
            Some(pixels) => r matches Ok(raster) && raster@ == pixels,
            None => r matches Err(e) && e == IconError::DecodeFailure,
        },
{
    if bytes.len() == RASTER_BYTES {
        Ok(Raster { pixels: bytes })
    } else {
        Err(IconError::DecodeFailure)
    }
}

/// True for the size that marks a texture of the archive as an icon: as
/// wide and as high as a raster.
pub fn is_icon_size(width: u32, height: u32) -> (b: bool)
    ensures
        b == (width == SIDE && height == SIDE),
{
    width == SIDE && height == SIDE
}

} // verus!
