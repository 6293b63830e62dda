//! Texture formats and dimensions handled by the pipeline.

use vstd::prelude::*;

verus! {

/// Pixel layouts the pipeline accepts as input (the four uncompressed
/// 8-bit-per-channel layouts) or produces as output (their BCn
/// block-compressed equivalents).
#[derive(Clone, Copy, Debug, PartialEq, Eq, Structural)]
pub enum TextureFormat {
    R8Unorm,
    Rg8Unorm,
    Rgba8Unorm,
    Rgba8UnormSrgb,
    Bc4RUnorm,
    Bc5RgUnorm,
    Bc7RgbaUnorm,
    Bc7RgbaUnormSrgb,
}

/// Dimensionality of a texture; only `D2` is accepted by the pipeline.
#[derive(Clone, Copy, Debug, PartialEq, Eq, Structural)]
pub enum TextureDimension {
    D1,
    D2,
    D3,
}

impl TextureFormat {
    /// Whether the format is one of the BCn block-compressed formats.
    pub open spec fn spec_is_compressed(self) -> bool {
        match self {
            TextureFormat::Bc4RUnorm => true,
            TextureFormat::Bc5RgUnorm => true,
            TextureFormat::Bc7RgbaUnorm => true,
            TextureFormat::Bc7RgbaUnormSrgb => true,
            _ => false,
        }
    }

    /// Bytes per texel of an uncompressed layout; compressed formats store
    /// whole 4x4 blocks instead and are not measured per texel.
    pub open spec fn spec_texel_bytes(self) -> nat {
        match self {
            TextureFormat::R8Unorm => 1,
            TextureFormat::Rg8Unorm => 2,
            _ => 4,
        }
    }

    /// Whether the format carries an sRGB transfer-function tag.
    pub open spec fn spec_is_srgb(self) -> bool {
        match self {
            TextureFormat::Rgba8UnormSrgb => true,
            TextureFormat::Bc7RgbaUnormSrgb => true,
            _ => false,
        }
    }

    pub fn is_compressed(&self) -> (r: bool)
        ensures
            r == self.spec_is_compressed(),
    {
        match self {
            TextureFormat::Bc4RUnorm => true,
            TextureFormat::Bc5RgUnorm => true,
            TextureFormat::Bc7RgbaUnorm => true,
            TextureFormat::Bc7RgbaUnormSrgb => true,
            _ => false,
        }
    }

    pub fn is_srgb(&self) -> (r: bool)
        ensures
            r == self.spec_is_srgb(),
    {
        match self {
            TextureFormat::Rgba8UnormSrgb => true,
            TextureFormat::Bc7RgbaUnormSrgb => true,
            _ => false,
        }
    }

    /// Bytes per texel of an uncompressed layout, as an executable value.
    pub fn texel_bytes(&self) -> (r: u32)
        ensures
            r == self.spec_texel_bytes(),
    {
        match self {
            TextureFormat::R8Unorm => 1,
            TextureFormat::Rg8Unorm => 2,
            _ => 4,
        }
    }
}

} // verus!
