//! The raster model: an addressable 2-D pixel buffer in one of the three
//! supported channel layouts, the adapter from an [`Image`] into it, and
//! resampling through the `image` crate behind trusted wrappers.

use vstd::prelude::*;

use crate::errors::MipError;
use crate::formats::TextureFormat;
use crate::texture::Image;

verus! {

/// The `image` crate's resampling filter choice, declared so that it can
/// appear in signatures and specifications of this library.
#[verifier::external_type_specification]
pub struct ExFilterType(image::imageops::FilterType);

/// Relies on the derived `Clone` of `image::imageops::FilterType`, a
/// `Copy` enum: cloning returns the same value.
pub assume_specification[ <image::imageops::FilterType as Clone>::clone ](
    f: &image::imageops::FilterType,
) -> (r: image::imageops::FilterType)
    ensures
        r == *f,
;

/// A 2-D raster of 8-bit texels with 1, 2 or 4 channels, stored row-major
/// and tightly packed.
pub struct Raster {
    pub data: Vec<u8>,
    pub width: u32,
    pub height: u32,
    pub channels: u8,
}

impl Raster {
    /// Well-formedness: a supported channel count, positive dimensions, and
    /// a buffer of exactly `width * height * channels` bytes.
    pub open spec fn inv(self) -> bool {
        &&& (self.channels == 1 || self.channels == 2 || self.channels == 4)
        &&& self.width >= 1
        &&& self.height >= 1
        &&& self.data@.len() == self.width as nat * self.height as nat * self.channels as nat
    }
}

/// What `image`'s resampler returns for a single-channel raster: a function
/// of the pixel data, the old and new dimensions, and the filter alone.
pub uninterp spec fn spec_resized_r8(
    data: Seq<u8>,
    w: int,
    h: int,
    nw: int,
    nh: int,
    filter: image::imageops::FilterType,
) -> Seq<u8>;

/// What `image`'s resampler returns for a two-channel raster.
pub uninterp spec fn spec_resized_rg8(
    data: Seq<u8>,
    w: int,
    h: int,
    nw: int,
    nh: int,
    filter: image::imageops::FilterType,
) -> Seq<u8>;

/// What `image`'s resampler returns for a four-channel raster.
pub uninterp spec fn spec_resized_rgba8(
    data: Seq<u8>,
    w: int,
    h: int,
    nw: int,
    nh: int,
    filter: image::imageops::FilterType,
) -> Seq<u8>;

/// The resampled pixel data of a raster with `c` channels.
pub open spec fn spec_resized(
    c: nat,
    data: Seq<u8>,
    w: int,
    h: int,
    nw: int,
    nh: int,
    filter: image::imageops::FilterType,
) -> Seq<u8> {
    if c == 1 {
        spec_resized_r8(data, w, h, nw, nh, filter)
    } else if c == 2 {
        spec_resized_rg8(data, w, h, nw, nh, filter)
    } else {
        spec_resized_rgba8(data, w, h, nw, nh, filter)
    }
}

/// Relies on `image::DynamicImage::resize_exact` over a `Luma8` buffer: it
/// returns an image of exactly the requested dimensions, computed from the
/// pixel data, the dimensions and the filter alone.
#[verifier::external_body]
fn resize_r8(
    data: &Vec<u8>,
    w: u32,
    h: u32,
    nw: u32,
    nh: u32,
    filter: image::imageops::FilterType,
) -> (r: Vec<u8>)
    requires
        data@.len() == w as nat * h as nat,
        1 <= nw <= w,
        1 <= nh <= h,
    ensures
        r@ == spec_resized_r8(data@, w as int, h as int, nw as int, nh as int, filter),
        r@.len() == nw as nat * nh as nat,
{
    let buf: image::ImageBuffer<image::Luma<u8>, Vec<u8>> =
        image::ImageBuffer::from_raw(w, h, data.clone()).unwrap();
    image::DynamicImage::ImageLuma8(buf).resize_exact(nw, nh, filter).as_bytes().to_vec()
}

/// Relies on `image::DynamicImage::resize_exact` over a `LumaA8` buffer, as
/// for [`resize_r8`].
#[verifier::external_body]
fn resize_rg8(
    data: &Vec<u8>,
    w: u32,
    h: u32,
    nw: u32,
    nh: u32,
    filter: image::imageops::FilterType,
) -> (r: Vec<u8>)
    requires
        data@.len() == w as nat * h as nat * 2,
        1 <= nw <= w,
        1 <= nh <= h,
    ensures
        r@ == spec_resized_rg8(data@, w as int, h as int, nw as int, nh as int, filter),
        r@.len() == nw as nat * nh as nat * 2,
{
    let buf: image::ImageBuffer<image::LumaA<u8>, Vec<u8>> =
        image::ImageBuffer::from_raw(w, h, data.clone()).unwrap();
    image::DynamicImage::ImageLumaA8(buf).resize_exact(nw, nh, filter).as_bytes().to_vec()
}

/// Relies on `image::DynamicImage::resize_exact` over an `Rgba8` buffer, as
/// for [`resize_r8`].
#[verifier::external_body]
fn resize_rgba8(
    data: &Vec<u8>,
    w: u32,
    h: u32,
    nw: u32,
    nh: u32,
    filter: image::imageops::FilterType,
) -> (r: Vec<u8>)
    requires
        data@.len() == w as nat * h as nat * 4,
        1 <= nw <= w,
        1 <= nh <= h,
    ensures
        r@ == spec_resized_rgba8(data@, w as int, h as int, nw as int, nh as int, filter),
        r@.len() == nw as nat * nh as nat * 4,
{
    let buf: image::ImageBuffer<image::Rgba<u8>, Vec<u8>> =
        image::ImageBuffer::from_raw(w, h, data.clone()).unwrap();
    image::DynamicImage::ImageRgba8(buf).resize_exact(nw, nh, filter).as_bytes().to_vec()
}

/// Resamples a raster down to exactly `nw` by `nh` texels with the given
/// filter.
pub fn resize_raster(r: &Raster, nw: u32, nh: u32, filter: image::imageops::FilterType) -> (out:
    Raster)
    requires
        r.inv(),
        1 <= nw <= r.width,
        1 <= nh <= r.height,
    ensures
        out.inv(),
        out.width == nw,
        out.height == nh,
        out.channels == r.channels,
        out.data@ == spec_resized(
            r.channels as nat,
            r.data@,
            r.width as int,
            r.height as int,
            nw as int,
            nh as int,
            filter,
        ),
{
    let data = if r.channels == 1 {
        resize_r8(&r.data, r.width, r.height, nw, nh, filter)
    } else if r.channels == 2 {
        resize_rg8(&r.data, r.width, r.height, nw, nh, filter)
    } else {
        resize_rgba8(&r.data, r.width, r.height, nw, nh, filter)
    };
    Raster { data, width: nw, height: nh, channels: r.channels }
}

/// The conditions under which an image converts into a raster: a supported
/// uncompressed layout, positive dimensions, and a buffer holding exactly
/// one full-size level.
pub open spec fn spec_rasterizable(image: Image) -> bool {
    &&& !image.format.spec_is_compressed()
    &&& image.width >= 1
    &&& image.height >= 1
    &&& image.data@.len() == image.width as nat * image.height as nat
        * image.format.spec_texel_bytes()
}

/// Converts an image into an addressable raster. Fails for formats without
/// a raster adapter, and for buffers that do not hold exactly one
/// full-size level.
pub fn try_into_dynamic(image: Image) -> (r: Result<Raster, MipError>)
    ensures
        r is Ok <==> spec_rasterizable(image),
        r is Ok ==> {
            let out = r->Ok_0;
            &&& out.width == image.width
            &&& out.height == image.height
            &&& out.channels == image.format.spec_texel_bytes()
            &&& out.data@ == image.data@
            &&& out.inv()
        },
        r is Err ==> r->Err_0 == (if image.format.spec_is_compressed() {
            MipError::UnsupportedPixelFormat
        } else {
            MipError::ConversionFailed
        }),
{
    let channels: u8 = match image.format {
        TextureFormat::R8Unorm => 1,
        TextureFormat::Rg8Unorm => 2,
        TextureFormat::Rgba8Unorm => 4,
        TextureFormat::Rgba8UnormSrgb => 4,
        _ => {
            return Err(MipError::UnsupportedPixelFormat);
        },
    };
    if image.width < 1 || image.height < 1 {
        return Err(MipError::ConversionFailed);
    }
    proof {
        assert(image.width as int * image.height as int * channels as int <= 0xffff_ffff
            * 0xffff_ffff * 4) by (nonlinear_arith)
            requires
                image.width <= 0xffff_ffff,
                image.height <= 0xffff_ffff,
                channels <= 4,
        ;
    }
    let expected: u128 = image.width as u128 * image.height as u128 * channels as u128;
    if image.data.len() as u128 != expected {
        return Err(MipError::ConversionFailed);
    }
    Ok(Raster { data: image.data, width: image.width, height: image.height, channels })
}

} // verus!
