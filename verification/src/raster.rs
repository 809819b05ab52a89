//! Pictures as plain pixel data, and the two operations on them: cutting a
//! rectangle out, and resampling to a new extent.
//!
//! Both operations are carried out by the `image` crate. Cutting is stated
//! exactly, pixel by pixel. The filter that resamples computes with floating
//! point sines, whose precision is not fixed across machines: what it gives
//! is not a function of the picture. Of a resampled picture the contracts
//! state its extent, that it is one of the pictures which the filter gives
//! for this source and this extent, and, where the extent is the source's
//! own, that it is the source unchanged.

use crate::dpi::lemma_product_fits_u64;
use crate::error::DomainError;
use crate::monitor::{Rect, Size};
use vstd::prelude::*;

verus! {

/// A picture of `width` by `height` pixels. A pixel is four bytes, red,
/// green, blue and alpha; rows follow each other from the top, and in a row
/// the pixels from the left.
#[derive(Clone, Debug, PartialEq, Eq)]
pub struct Raster {
    pub width: u32,
    pub height: u32,
    pub pixels: Vec<u8>,
}

/// Where the byte of channel `c` of the pixel at (`x`, `y`) stands in the
/// data of a picture `width` pixels wide.
pub open spec fn byte_index(width: int, x: int, y: int, c: int) -> int {
    (y * width + x) * 4 + c
}

/// The data of the rectangle `r` of a picture `width` pixels wide with the
/// data `pixels`.
pub open spec fn crop_pixels(pixels: Seq<u8>, width: int, r: Rect) -> Seq<u8> {
    Seq::new(
        (r.width * r.height * 4) as nat,
        |k: int|
            pixels[byte_index(
                width,
                r.x + (k / 4) % (r.width as int),
                r.y + (k / 4) / (r.width as int),
                k % 4,
            )],
    )
}

/// An upper bound on the extent of the picture that resampling makes along
/// the way: the source brought, with its proportions kept, to the smallest
/// extent that covers `nw` by `nh`.
pub open spec fn covering_extent(w: int, h: int, nw: int, nh: int) -> (int, int) {
    if nw * h >= nh * w {
        (nw, (h * nw) / w + 1)
    } else {
        ((w * nh) / h + 1, nh)
    }
}

/// The greater of two numbers.
pub open spec fn greater(a: int, b: int) -> int {
    if a >= b {
        a
    } else {
        b
    }
}

/// The longest side, in pixels, of a picture that takes part in resampling.
/// The filter places its samples in single precision; up to this length a
/// placement is off by less than a quarter of a pixel, so that the pixel
/// nearest to a sample always carries weight.
pub const MAX_SIDE: u32 = 1048576;

/// A picture of `w` by `h` pixels can be resampled to `nw` by `nh`: neither
/// picture is empty; no side of the source, of the covering extent or of
/// the extent asked for is longer than `MAX_SIDE`; and the working buffers,
/// of sixteen bytes a pixel, can be addressed.
pub open spec fn resample_supported(w: int, h: int, nw: int, nh: int) -> bool {
    &&& 0 < w <= MAX_SIDE
    &&& 0 < h <= MAX_SIDE
    &&& 0 < nw <= MAX_SIDE
    &&& 0 < nh <= MAX_SIDE
    &&& covering_extent(w, h, nw, nh).0 <= MAX_SIDE
    &&& covering_extent(w, h, nw, nh).1 <= MAX_SIDE
    &&& 16 * greater(w, covering_extent(w, h, nw, nh).0) * greater(
        h,
        covering_extent(w, h, nw, nh).1,
    ) <= isize::MAX
}

/// `outcome` is the data of a picture that the `image` crate's Lanczos
/// filter gives when a picture of `width` by `height` pixels with the data
/// `source` is resampled to fill `to_width` by `to_height` pixels.
pub uninterp spec fn resampling_gives(
    source: Seq<u8>,
    width: u32,
    height: u32,
    to_width: u32,
    to_height: u32,
    outcome: Seq<u8>,
) -> bool;

impl Raster {
    /// The data holds four bytes for each pixel and no more.
    pub open spec fn wf(&self) -> bool {
        self.pixels@.len() == self.width * self.height * 4
    }

    /// The picture's extent.
    pub open spec fn spec_size(&self) -> Size {
        Size { width: self.width, height: self.height }
    }

    /// Builds a picture from its data, or nothing where the data has not
    /// four bytes for each pixel.
    pub fn new(width: u32, height: u32, pixels: Vec<u8>) -> (out: Option<Raster>)
        ensures
            out.is_some() <==> pixels@.len() == width * height * 4,
            out.is_some() ==> out.unwrap().wf() && out.unwrap().width == width
                && out.unwrap().height == height && out.unwrap().pixels@ == pixels@,
    {
        proof {
            lemma_product_fits_u64(width, height);
        }
        let wanted: u128 = (width as u64 * height as u64) as u128 * 4;
        if pixels.len() as u128 == wanted {
            Some(Raster { width, height, pixels })
        } else {
            None
        }
    }

    /// The picture's extent.
    pub fn size(&self) -> (size: Size)
        ensures
            size == self.spec_size(),
    {
        Size { width: self.width, height: self.height }
    }
}

/// `DynamicImage::crop_imm` of the `image` crate, on a picture of four bytes
/// a pixel. For a rectangle inside the picture, the result has the
/// rectangle's extent and holds, pixel by pixel, what the picture holds in
/// the rectangle.
#[verifier::external_body]
fn crop_imm(src: &Raster, r: Rect) -> (out: Raster)
    requires
        src.wf(),
        r.fits(src.width as int, src.height as int),
    ensures
        out.wf(),
        out.width == r.width,
        out.height == r.height,
        out.pixels@ == crop_pixels(src.pixels@, src.width as int, r),
{
    let buffer = image::RgbaImage::from_raw(src.width, src.height, src.pixels.clone()).unwrap();
    let cut = image::DynamicImage::ImageRgba8(buffer).crop_imm(r.x, r.y, r.width, r.height);
    Raster { width: cut.width(), height: cut.height(), pixels: cut.into_rgba8().into_raw() }
}

/// `DynamicImage::resize_to_fill` of the `image` crate with its `Lanczos3`
/// filter, on a picture of four bytes a pixel. Where resampling is
/// supported, the result has exactly the extent asked for, and is by name
/// what the filter gives. Where the extent asked for is the picture's own,
/// the crate copies the picture and filters nothing. No more is claimed of
/// the pixels.
#[verifier::external_body]
fn resize_to_fill_lanczos(src: &Raster, width: u32, height: u32) -> (out: Raster)
    requires
        src.wf(),
        resample_supported(src.width as int, src.height as int, width as int, height as int),
    ensures
        out.wf(),
        out.width == width,
        out.height == height,
        resampling_gives(src.pixels@, src.width, src.height, width, height, out.pixels@),
        width == src.width && height == src.height ==> out.pixels@ == src.pixels@,
{
    let buffer = image::RgbaImage::from_raw(src.width, src.height, src.pixels.clone()).unwrap();
    let filter = image::imageops::FilterType::Lanczos3;
    let scaled = image::DynamicImage::ImageRgba8(buffer).resize_to_fill(width, height, filter);
    Raster { width: scaled.width(), height: scaled.height(), pixels: scaled.into_rgba8().into_raw() }
}

/// Whether a picture of `w` by `h` pixels can be resampled to `nw` by `nh`.
pub fn can_resample(w: u32, h: u32, nw: u32, nh: u32) -> (ok: bool)
    ensures
        ok == resample_supported(w as int, h as int, nw as int, nh as int),
{
    if w == 0 || h == 0 || nw == 0 || nh == 0 {
        return false;
    }
    if w > MAX_SIDE || h > MAX_SIDE || nw > MAX_SIDE || nh > MAX_SIDE {
        return false;
    }
    proof {
        lemma_product_fits_u64(nw, h);
        lemma_product_fits_u64(nh, w);
        lemma_product_fits_u64(h, nw);
        lemma_product_fits_u64(w, nh);
        assert(nw * h == h * nw) by (nonlinear_arith);
        assert(nh * w == w * nh) by (nonlinear_arith);
    }
    let across: u64 = nw as u64 * h as u64;
    let down: u64 = nh as u64 * w as u64;
    assert(across / (w as u64) <= across && down / (h as u64) <= down) by (nonlinear_arith)
        requires
            w > 0,
            h > 0,
    ;
    let (iw, ih): (u64, u64) = if across >= down {
        (nw as u64, across / (w as u64) + 1)
    } else {
        (down / (h as u64) + 1, nh as u64)
    };
    if iw > MAX_SIDE as u64 || ih > MAX_SIDE as u64 {
        return false;
    }
    let widest: u64 = if w as u64 >= iw {
        w as u64
    } else {
        iw
    };
    let highest: u64 = if h as u64 >= ih {
        h as u64
    } else {
        ih
    };
    assert(0 <= widest * highest <= 0xffff_ffff * 0xffff_ffff) by (nonlinear_arith)
        requires
            0 <= widest <= 0xffff_ffff,
            0 <= highest <= 0xffff_ffff,
    ;
    let area: u128 = (widest * highest) as u128;
    assert(16 * widest * highest == 16 * (widest * highest)) by (nonlinear_arith);
    16 * area <= isize::MAX as u128
}

/// Cuts the rectangle `r` out of a picture. Fails with `CropOutOfBounds`
/// exactly where the rectangle reaches past the picture.
pub fn crop(src: &Raster, r: Rect) -> (out: Result<Raster, DomainError>)
    requires
        src.wf(),
    ensures
        out.is_ok() <==> r.fits(src.width as int, src.height as int),
        out.is_err() ==> out == Err::<Raster, DomainError>(DomainError::CropOutOfBounds),
        out.is_ok() ==> out.unwrap().wf() && out.unwrap().width == r.width && out.unwrap().height
            == r.height && out.unwrap().pixels@ == crop_pixels(src.pixels@, src.width as int, r),
{
    if !r.fits_within(src.width, src.height) {
        return Err(DomainError::CropOutOfBounds);
    }
    Ok(crop_imm(src, r))
}

/// Resamples a picture so that it fills the extent `size`: it is brought,
/// with its proportions kept, to the smallest extent that covers `size`, and
/// what then reaches past `size` is cut off evenly on both sides. A picture
/// that has the extent `size` already is returned unchanged. Fails with
/// `CropOutOfBounds` exactly where resampling is not supported.
pub fn resize_to_fill(src: &Raster, size: Size) -> (out: Result<Raster, DomainError>)
    requires
        src.wf(),
    ensures
        out.is_ok() <==> resample_supported(
            src.width as int,
            src.height as int,
            size.width as int,
            size.height as int,
        ),
        out.is_err() ==> out == Err::<Raster, DomainError>(DomainError::CropOutOfBounds),
        out.is_ok() ==> out.unwrap().wf() && out.unwrap().spec_size() == size,
        out.is_ok() ==> resampling_gives(
            src.pixels@,
            src.width,
            src.height,
            size.width,
            size.height,
            out.unwrap().pixels@,
        ),
        out.is_ok() && src.spec_size() == size ==> out.unwrap().pixels@ == src.pixels@,
{
    if !can_resample(src.width, src.height, size.width, size.height) {
        return Err(DomainError::CropOutOfBounds);
    }
    Ok(resize_to_fill_lanczos(src, size.width, size.height))
}

} // verus!
