//! Settings for one generation pass.

use vstd::prelude::*;

verus! {

/// Encoder effort for BCn block compression, trading search time for
/// compressed quality. Only affects encoder effort, never correctness.
#[derive(Clone, Copy, Debug, Default)]
pub enum CompressionSpeed {
    #[default]
    UltraFast,
    VeryFast,
    Fast,
    Medium,
    Slow,
}

/// Settings for mipmap generation. Immutable per generation call and
/// cheap to clone.
#[derive(Clone)]
pub struct MipmapGeneratorSettings {
    /// Anisotropic filtering level attached to the sampler by the host.
    /// Valid values: 1, 2, 4, 8, and 16.
    pub anisotropic_filtering: u16,
    /// The resampling filter used to produce each level.
    pub filter_type: image::imageops::FilterType,
    /// Floor in texels: no level is generated whose width or height would
    /// drop below this.
    pub minimum_mip_resolution: u32,
    /// `Some(speed)` enables BCn block compression of the output levels.
    /// Supported conversions: R8Unorm to Bc4RUnorm, Rg8Unorm to Bc5RgUnorm,
    /// Rgba8Unorm to Bc7RgbaUnorm, and Rgba8UnormSrgb to Bc7RgbaUnormSrgb.
    pub compression: Option<CompressionSpeed>,
    /// If set, raw compressed image data is cached under this directory.
    /// Images that are not BCn compressed are not cached.
    pub compressed_image_data_cache_path: Option<String>,
}

impl Default for MipmapGeneratorSettings {
    /// Defaults: 8x anisotropic filtering, triangle filter, a floor of one
    /// texel, no compression, no cache.
    fn default() -> (r: Self)
        ensures
            r.anisotropic_filtering == 8,
            r.filter_type == image::imageops::FilterType::Triangle,
            r.minimum_mip_resolution == 1,
            r.compression is None,
            r.compressed_image_data_cache_path is None,
    {
        MipmapGeneratorSettings {
            anisotropic_filtering: 8,
            filter_type: image::imageops::FilterType::Triangle,
            minimum_mip_resolution: 1,
            compression: None,
            compressed_image_data_cache_path: None,
        }
    }
}

} // verus!
