//! The per-image pipeline: validate, adapt to a raster, choose the target
//! format, consult the content cache, generate the pyramid, store it, and
//! splice the result into the image descriptor.

use vstd::prelude::*;

use crate::cache::{
    calculate_hash, spec_cache_load, spec_cache_store, spec_content_hash, ContentCache,
};
use crate::compress::spec_bcn_equivalent_format;
use crate::errors::MipError;
use crate::formats::TextureFormat;
use crate::mips::{
    calculate_mip_count, generate_mips, lemma_mip_count_budget, spec_block_min, spec_dim_floor,
    spec_mip_count, spec_pyramid_len, spec_pyramid_ok,
};
use crate::raster::{spec_rasterizable, try_into_dynamic};
use crate::settings::MipmapGeneratorSettings;
use crate::texture::{check_image_compatible, spec_level_dim, Image};

verus! {

/// The target format of a generation call: the BCn equivalent of the
/// source when compression is requested and the source is at least one
/// block in each dimension, none otherwise.
pub open spec fn spec_target_format(image: Image, settings: MipmapGeneratorSettings) -> Option<
    TextureFormat,
> {
    if settings.compression is Some && image.width >= 4 && image.height >= 4 {
        Some(
            spec_bcn_equivalent_format(
                image.format.spec_texel_bytes(),
                image.format.spec_is_srgb(),
            ),
        )
    } else {
        None
    }
}

/// The level count of a generation call: every level down to the larger of
/// the requested floor and the block minimum.
pub open spec fn spec_pipeline_mip_count(image: Image, settings: MipmapGeneratorSettings, comp: bool) -> nat {
    spec_mip_count(
        image.width as nat,
        image.height as nat,
        spec_dim_floor(settings.minimum_mip_resolution as nat, spec_block_min(comp)),
        u32::MAX as nat,
    )
}

/// Whether a generation call consults the cache: only when the output is
/// block-compressed and a cache directory is configured.
pub open spec fn spec_uses_cache(image: Image, settings: MipmapGeneratorSettings) -> bool {
    spec_target_format(image, settings) is Some
        && settings.compressed_image_data_cache_path is Some
}

/// A mip count never halves a dimension to nothing.
proof fn lemma_mip_count_dims(w: nat, h: nat, floor: nat, max: nat)
    requires
        w >= 1,
        h >= 1,
        floor >= 1,
    ensures
        spec_level_dim(w, (spec_mip_count(w, h, floor, max) - 1) as nat) >= 1,
        spec_level_dim(h, (spec_mip_count(w, h, floor, max) - 1) as nat) >= 1,
    decreases w,
{
    let m = spec_mip_count(w, h, floor, max);
    if m > 1 {
        lemma_mip_count_dims(w / 2, h / 2, floor, (max - 1) as nat);
        crate::texture::lemma_level_dim_shift(w, (m - 1) as nat);
        crate::texture::lemma_level_dim_shift(h, (m - 1) as nat);
    }
}

/// An uncompressed pyramid stream is exactly an uncompressed mip chain.
proof fn lemma_pyramid_len_uncompressed(c: nat, w: nat, h: nat, levels: nat)
    ensures
        spec_pyramid_len(c, false, w, h, levels) == crate::texture::spec_mip_chain_bytes(
            c,
            w,
            h,
            levels,
        ),
    decreases levels,
{
    if levels > 0 {
        lemma_pyramid_len_uncompressed(c, w / 2, h / 2, (levels - 1) as nat);
    }
}

/// Generates the full mip chain for one image, in place. The image is
/// validated and adapted to a raster; the target format is chosen from its
/// channel count and sRGB tag when compression is requested; the content
/// cache is consulted (and on a miss, filled) when the output is
/// compressed and a cache directory is configured; and the image's data,
/// format and level count are replaced exactly once, on success.
/// Every compatible source with a raster adapter succeeds — a missing
/// compression mapping or an undersized source only falls back to
/// uncompressed output. `added_cache_size` grows by the number of bytes
/// this call cached.
pub fn generate_mips_texture(
    image: &mut Image,
    settings: &MipmapGeneratorSettings,
    added_cache_size: &mut usize,
    cache: &mut ContentCache,
) -> (r: Result<(), MipError>)
    ensures
        !old(image).spec_compatible() ==> r == Result::<(), MipError>::Err(
            old(image).spec_compat_error(),
        ) && *final(image) == *old(image) && final(cache)@ == old(cache)@
            && *final(added_cache_size) == *old(added_cache_size),
        old(image).spec_compatible() && !spec_rasterizable(*old(image)) ==> r
            == Result::<(), MipError>::Err(MipError::ConversionFailed)
            && *final(image) == *old(image) && final(cache)@ == old(cache)@
            && *final(added_cache_size) == *old(added_cache_size),
        r is Ok <==> old(image).spec_compatible() && spec_rasterizable(*old(image)),
        r is Ok ==> ({
            let c = old(image).format.spec_texel_bytes();
            let w0 = old(image).width as nat;
            let h0 = old(image).height as nat;
            let target = spec_target_format(*old(image), *settings);
            let comp = target is Some;
            let levels = spec_pipeline_mip_count(*old(image), *settings, comp);
            let hash = spec_content_hash(*old(image));
            let cached = spec_uses_cache(*old(image), *settings) && spec_cache_load(
                old(cache)@,
                hash,
            ) is Some;
            &&& final(image).width == old(image).width
            &&& final(image).height == old(image).height
            &&& final(image).depth_or_array_layers == old(image).depth_or_array_layers
            &&& final(image).dimension == old(image).dimension
            &&& final(image).mip_level_count as nat == levels
            &&& final(image).format == (if comp {
                target->Some_0
            } else {
                old(image).format
            })
            &&& final(image).inv()
            &&& (cached ==> {
                &&& final(image).data@ == spec_cache_load(old(cache)@, hash)->Some_0
                &&& final(cache)@ == old(cache)@
                &&& *final(added_cache_size) == *old(added_cache_size)
            })
            &&& (!cached ==> {
                &&& spec_pyramid_ok(
                    final(image).data@,
                    old(image).data@,
                    c,
                    w0,
                    h0,
                    levels,
                    settings.filter_type,
                    comp,
                )
                &&& final(image).data@.len() == spec_pyramid_len(c, comp, w0, h0, levels)
                &&& (spec_uses_cache(*old(image), *settings) ==> {
                    &&& final(cache)@ == spec_cache_store(
                        old(cache)@,
                        hash,
                        final(image).data@,
                    )
                    &&& *final(added_cache_size) == (if *old(added_cache_size)
                        + final(image).data@.len() <= usize::MAX {
                        *old(added_cache_size) + final(image).data@.len()
                    } else {
                        usize::MAX as int
                    })
                })
                &&& (!spec_uses_cache(*old(image), *settings) ==> final(cache)@ == old(cache)@
                    && *final(added_cache_size) == *old(added_cache_size))
            })
        }),
{
    if let Err(e) = check_image_compatible(image) {
        return Err(e);
    }

    let image_copy = Image {
        data: image.data.clone(),
        width: image.width,
        height: image.height,
        depth_or_array_layers: image.depth_or_array_layers,
        dimension: image.dimension,
        format: image.format,
        mip_level_count: image.mip_level_count,
    };
    let mut dyn_image = match try_into_dynamic(image_copy) {
        Ok(r) => r,
        Err(e) => {
            return Err(e);
        },
    };

    let is_srgb = image.format.is_srgb();
    let mut compressed_format: Option<TextureFormat> = None;
    let mut compression_settings = settings.compression;
    if settings.compression.is_some() {
        match crate::compress::bcn_equivalent_format_of_dyn_image(&dyn_image, is_srgb) {
            Ok(format) => {
                compressed_format = Some(format);
            },
            Err(_) => {
                // No usable mapping: warn upstream and proceed uncompressed.
                compression_settings = None;
            },
        }
    }
    let ghost comp = compressed_format is Some;

    let mip_count = calculate_mip_count(
        dyn_image.width,
        dyn_image.height,
        settings.minimum_mip_resolution,
        u32::MAX,
        compression_settings,
    );
    proof {
        lemma_mip_count_dims(
            old(image).width as nat,
            old(image).height as nat,
            spec_dim_floor(
                settings.minimum_mip_resolution as nat,
                spec_block_min(comp),
            ),
            u32::MAX as nat,
        );
    }

    let caching = compression_settings.is_some()
        && settings.compressed_image_data_cache_path.is_some();
    let mut input_hash: u64 = 0;
    let mut loaded_from_cache = false;
    let mut new_image_data: Vec<u8> = Vec::new();

    if caching {
        input_hash = calculate_hash(image);
        if let Some(cached_bytes) = cache.load(input_hash) {
            new_image_data = cached_bytes;
            loaded_from_cache = true;
        }
    }

    if !loaded_from_cache {
        new_image_data = generate_mips(
            &mut dyn_image,
            mip_count,
            settings.filter_type,
            compression_settings,
        );
        proof {
            lemma_mip_count_budget(
                old(image).width as nat,
                old(image).height as nat,
                spec_block_min(comp),
                spec_dim_floor(
                    settings.minimum_mip_resolution as nat,
                    spec_block_min(comp),
                ),
                u32::MAX as nat,
            );
            lemma_pyramid_len_uncompressed(
                old(image).format.spec_texel_bytes(),
                old(image).width as nat,
                old(image).height as nat,
                mip_count as nat,
            );
        }
        if caching {
            let len = new_image_data.len();
            if usize::MAX - *added_cache_size >= len {
                *added_cache_size = *added_cache_size + len;
            } else {
                *added_cache_size = usize::MAX;
            }
            cache.store(input_hash, &new_image_data);
        }
    }

    image.mip_level_count = mip_count;
    if let Some(format) = compressed_format {
        image.format = format;
    }
    image.data = new_image_data;
    Ok(())
}

} // verus!
