//! BCn block compression of raster levels through the `intel_tex_2` crate,
//! behind trusted wrappers, and the deterministic choice of target format.

use vstd::prelude::*;

use crate::errors::MipError;
use crate::formats::TextureFormat;
use crate::raster::Raster;
use crate::settings::CompressionSpeed;

verus! {

/// The `intel_tex_2` BC7 encoder parameter set, declared so that it can
/// appear in signatures of this library. Opaque to verification.
#[verifier::external_type_specification]
#[verifier::external_body]
pub struct ExEncodeSettings(intel_tex_2::bc7::EncodeSettings);

/// Relies on `intel_tex_2::bc7::alpha_ultra_fast_settings`: a fixed
/// encoder preset.
#[verifier::external_body]
fn bc7_alpha_ultra_fast_settings() -> intel_tex_2::bc7::EncodeSettings {
    intel_tex_2::bc7::alpha_ultra_fast_settings()
}

/// Relies on `intel_tex_2::bc7::alpha_very_fast_settings`: a fixed
/// encoder preset.
#[verifier::external_body]
fn bc7_alpha_very_fast_settings() -> intel_tex_2::bc7::EncodeSettings {
    intel_tex_2::bc7::alpha_very_fast_settings()
}

/// Relies on `intel_tex_2::bc7::alpha_fast_settings`: a fixed encoder
/// preset.
#[verifier::external_body]
fn bc7_alpha_fast_settings() -> intel_tex_2::bc7::EncodeSettings {
    intel_tex_2::bc7::alpha_fast_settings()
}

/// Relies on `intel_tex_2::bc7::alpha_basic_settings`: a fixed encoder
/// preset.
#[verifier::external_body]
fn bc7_alpha_basic_settings() -> intel_tex_2::bc7::EncodeSettings {
    intel_tex_2::bc7::alpha_basic_settings()
}

/// Relies on `intel_tex_2::bc7::alpha_slow_settings`: a fixed encoder
/// preset.
#[verifier::external_body]
fn bc7_alpha_slow_settings() -> intel_tex_2::bc7::EncodeSettings {
    intel_tex_2::bc7::alpha_slow_settings()
}

impl CompressionSpeed {
    /// The BC7 encoder parameter set for this speed. Alpha-aware presets
    /// are used throughout, since input images do not distinguish images
    /// with an alpha channel from those without.
    fn get_bc7_encoder(&self) -> intel_tex_2::bc7::EncodeSettings {
        match self {
            CompressionSpeed::UltraFast => bc7_alpha_ultra_fast_settings(),
            CompressionSpeed::VeryFast => bc7_alpha_very_fast_settings(),
            CompressionSpeed::Fast => bc7_alpha_fast_settings(),
            CompressionSpeed::Medium => bc7_alpha_basic_settings(),
            CompressionSpeed::Slow => bc7_alpha_slow_settings(),
        }
    }
}

/// Whether a raster level of these dimensions can be handed to the block
/// compressor: at least one 4x4 block on each axis, block-aligned on both,
/// and a texel count within the kernel's signed 32-bit size arithmetic.
/// The bound also keeps every row stride (up to four bytes per texel, and
/// at least four rows) within the kernel's signed 32-bit stride field.
pub open spec fn spec_compressible(w: nat, h: nat) -> bool {
    &&& w >= 4
    &&& h >= 4
    &&& w % 4 == 0
    &&& h % 4 == 0
    &&& w * h <= i32::MAX
}

/// Byte size of the BCn encoding of a `w` by `h` level with `c` channels:
/// one block of 8 bytes (BC4) or 16 bytes (BC5, BC7) per 16 texels,
/// rounded up.
pub open spec fn spec_bcn_level_bytes(c: nat, w: nat, h: nat) -> nat {
    ((w * h + 15) / 16) * (if c == 1 {
        8nat
    } else {
        16nat
    })
}

/// Relies on `intel_tex_2::bc4::compress_blocks_into` and
/// `calc_output_size`: the output holds one 8-byte block per 16 texels.
/// The kernel requires block-aligned dimensions.
#[verifier::external_body]
fn bc4_compress(data: &Vec<u8>, w: u32, h: u32) -> (r: Vec<u8>)
    requires
        spec_compressible(w as nat, h as nat),
        data@.len() == w as nat * h as nat,
    ensures
        r@.len() == spec_bcn_level_bytes(1, w as nat, h as nat),
{
    let mut out = vec![0u8; intel_tex_2::bc4::calc_output_size(w, h)];
    let surface = intel_tex_2::RSurface { data, width: w, height: h, stride: w };
    intel_tex_2::bc4::compress_blocks_into(&surface, &mut out);
    out
}

/// Relies on `intel_tex_2::bc5::compress_blocks_into` and
/// `calc_output_size`: the output holds one 16-byte block per 16 texels.
/// The kernel requires block-aligned dimensions.
#[verifier::external_body]
fn bc5_compress(data: &Vec<u8>, w: u32, h: u32) -> (r: Vec<u8>)
    requires
        spec_compressible(w as nat, h as nat),
        data@.len() == w as nat * h as nat * 2,
    ensures
        r@.len() == spec_bcn_level_bytes(2, w as nat, h as nat),
{
    let mut out = vec![0u8; intel_tex_2::bc5::calc_output_size(w, h)];
    let surface = intel_tex_2::RgSurface { data, width: w, height: h, stride: w * 2 };
    intel_tex_2::bc5::compress_blocks_into(&surface, &mut out);
    out
}

/// Relies on `intel_tex_2::bc7::compress_blocks_into` and
/// `calc_output_size`: the output holds one 16-byte block per 16 texels.
/// The kernel requires block-aligned dimensions.
#[verifier::external_body]
fn bc7_compress(
    settings: &intel_tex_2::bc7::EncodeSettings,
    data: &Vec<u8>,
    w: u32,
    h: u32,
) -> (r: Vec<u8>)
    requires
        spec_compressible(w as nat, h as nat),
        data@.len() == w as nat * h as nat * 4,
    ensures
        r@.len() == spec_bcn_level_bytes(4, w as nat, h as nat),
{
    let mut out = vec![0u8; intel_tex_2::bc7::calc_output_size(w, h)];
    let surface = intel_tex_2::RgbaSurface { data, width: w, height: h, stride: w * 4 };
    intel_tex_2::bc7::compress_blocks_into(settings, &surface, &mut out);
    out
}

/// Block-compresses one raster level with the BCn format matching its
/// channel count. Fails, without touching anything, when the dimensions do
/// not allow block compression; callers then fall back to the raw bytes
/// for that level.
pub fn bcn_compress_dyn_image(compression_speed: CompressionSpeed, dyn_image: &Raster) -> (r:
    Result<Vec<u8>, MipError>)
    requires
        dyn_image.inv(),
    ensures
        r is Ok <==> spec_compressible(dyn_image.width as nat, dyn_image.height as nat),
        r is Ok ==> r->Ok_0@.len() == spec_bcn_level_bytes(
            dyn_image.channels as nat,
            dyn_image.width as nat,
            dyn_image.height as nat,
        ),
        r is Err ==> r->Err_0 == MipError::CompressionTooSmall,
{
    let w = dyn_image.width;
    let h = dyn_image.height;
    if w < 4 || h < 4 || w % 4 != 0 || h % 4 != 0 {
        return Err(MipError::CompressionTooSmall);
    }
    proof {
        assert(w as int * h as int <= 0xffff_ffff * 0xffff_ffff) by (nonlinear_arith)
            requires
                w <= 0xffff_ffff,
                h <= 0xffff_ffff,
        ;
    }
    if w as u64 * h as u64 > i32::MAX as u64 {
        return Err(MipError::CompressionTooSmall);
    }
    if dyn_image.channels == 1 {
        Ok(bc4_compress(&dyn_image.data, w, h))
    } else if dyn_image.channels == 2 {
        Ok(bc5_compress(&dyn_image.data, w, h))
    } else {
        Ok(bc7_compress(&compression_speed.get_bc7_encoder(), &dyn_image.data, w, h))
    }
}

/// The block-compressed format a raster maps to, determined by its channel
/// count and the source's sRGB tag. Fails when either source dimension is
/// below the block size.
pub fn bcn_equivalent_format_of_dyn_image(dyn_image: &Raster, is_srgb: bool) -> (r: Result<
    TextureFormat,
    MipError,
>)
    requires
        dyn_image.inv(),
    ensures
        r is Ok <==> (dyn_image.width >= 4 && dyn_image.height >= 4),
        r is Ok ==> r->Ok_0 == spec_bcn_equivalent_format(dyn_image.channels as nat, is_srgb),
        r is Err ==> r->Err_0 == MipError::CompressionTooSmall,
{
    if dyn_image.width < 4 || dyn_image.height < 4 {
        return Err(MipError::CompressionTooSmall);
    }
    if dyn_image.channels == 1 {
        Ok(TextureFormat::Bc4RUnorm)
    } else if dyn_image.channels == 2 {
        Ok(TextureFormat::Bc5RgUnorm)
    } else if is_srgb {
        Ok(TextureFormat::Bc7RgbaUnormSrgb)
    } else {
        Ok(TextureFormat::Bc7RgbaUnorm)
    }
}

/// The target format for a channel count and sRGB tag.
pub open spec fn spec_bcn_equivalent_format(c: nat, is_srgb: bool) -> TextureFormat {
    if c == 1 {
        TextureFormat::Bc4RUnorm
    } else if c == 2 {
        TextureFormat::Bc5RgUnorm
    } else if is_srgb {
        TextureFormat::Bc7RgbaUnormSrgb
    } else {
        TextureFormat::Bc7RgbaUnorm
    }
}

} // verus!
