use mipmap_generator::compress::{bcn_compress_dyn_image, bcn_equivalent_format_of_dyn_image};
use mipmap_generator::errors::{IncompatibleKind, MipError};
use mipmap_generator::formats::{TextureDimension, TextureFormat};
use mipmap_generator::mips::calculate_mip_count;
use mipmap_generator::cache::ContentCache;
use mipmap_generator::pipeline::generate_mips_texture;
use mipmap_generator::raster::{try_into_dynamic, Raster};
use mipmap_generator::settings::{CompressionSpeed, MipmapGeneratorSettings};
use mipmap_generator::texture::{check_image_compatible, extract_mip_level, Image};

fn rgba_image(width: u32, height: u32) -> Image {
    let mut data = Vec::new();
    for i in 0..(width as usize * height as usize * 4) {
        data.push((i % 251) as u8);
    }
    Image {
        data,
        width,
        height,
        depth_or_array_layers: 1,
        dimension: TextureDimension::D2,
        format: TextureFormat::Rgba8Unorm,
        mip_level_count: 1,
    }
}

fn r8_uniform_image(width: u32, height: u32, value: u8) -> Image {
    Image {
        data: vec![value; width as usize * height as usize],
        width,
        height,
        depth_or_array_layers: 1,
        dimension: TextureDimension::D2,
        format: TextureFormat::R8Unorm,
        mip_level_count: 1,
    }
}

fn default_settings() -> MipmapGeneratorSettings {
    MipmapGeneratorSettings::default()
}

#[test]
fn generate_then_extract_level_one_is_identity() {
    let mut image = rgba_image(8, 8);
    let original = image.data.clone();
    let mut added = 0usize;
    let mut cache = ContentCache::new();
    generate_mips_texture(&mut image, &default_settings(), &mut added, &mut cache).unwrap();
    assert_eq!(image.mip_level_count, 4);
    let level1 = extract_mip_level(&image, 1).unwrap();
    assert_eq!(level1.width, 8);
    assert_eq!(level1.height, 8);
    assert_eq!(level1.mip_level_count, 1);
    assert_eq!(level1.data, original);
}

#[test]
fn level_sizes_never_increase_and_widths_halve() {
    let mut image = rgba_image(16, 16);
    let mut added = 0usize;
    let mut cache = ContentCache::new();
    generate_mips_texture(&mut image, &default_settings(), &mut added, &mut cache).unwrap();
    assert_eq!(image.mip_level_count, 5);
    let mut previous_len = usize::MAX;
    for level in 1..=image.mip_level_count {
        let extracted = extract_mip_level(&image, level).unwrap();
        assert_eq!(extracted.width, 16 / 2u32.pow(level - 1));
        assert_eq!(extracted.height, 16 / 2u32.pow(level - 1));
        assert!(extracted.data.len() <= previous_len);
        previous_len = extracted.data.len();
    }
}

#[test]
fn uncompressed_256_pyramid_has_nine_levels() {
    assert_eq!(calculate_mip_count(256, 256, 1, u32::MAX, None), 9);
    let mut image = rgba_image(256, 256);
    let mut added = 0usize;
    let mut cache = ContentCache::new();
    generate_mips_texture(&mut image, &default_settings(), &mut added, &mut cache).unwrap();
    assert_eq!(image.mip_level_count, 9);
    assert_eq!(image.format, TextureFormat::Rgba8Unorm);
    // 4 * (65536 + 16384 + 4096 + 1024 + 256 + 64 + 16 + 4 + 1)
    assert_eq!(image.data.len(), 349524);
    let smallest = extract_mip_level(&image, 9).unwrap();
    assert_eq!(smallest.width, 1);
    assert_eq!(smallest.height, 1);
}

#[test]
fn compressed_256_pyramid_stops_at_block_size() {
    let speed = Some(CompressionSpeed::UltraFast);
    assert_eq!(calculate_mip_count(256, 256, 1, u32::MAX, speed), 7);
    let mut settings = default_settings();
    settings.compression = speed;
    let mut image = rgba_image(256, 256);
    let mut added = 0usize;
    let mut cache = ContentCache::new();
    generate_mips_texture(&mut image, &settings, &mut added, &mut cache).unwrap();
    assert_eq!(image.mip_level_count, 7);
    assert_eq!(image.format, TextureFormat::Bc7RgbaUnorm);
    // One 16-byte block per 16 texels: (256^2 + 128^2 + ... + 4^2) bytes.
    assert_eq!(image.data.len(), 65536 + 16384 + 4096 + 1024 + 256 + 64 + 16);
}

#[test]
fn mip_count_respects_resolution_floor_and_budget() {
    assert_eq!(calculate_mip_count(256, 256, 64, u32::MAX, None), 3);
    assert_eq!(calculate_mip_count(256, 256, 1, 2, None), 2);
    assert_eq!(calculate_mip_count(256, 256, 1, 0, None), 1);
    assert_eq!(calculate_mip_count(1, 1, 1, u32::MAX, None), 1);
    assert_eq!(calculate_mip_count(256, 4, 1, u32::MAX, None), 3);
    assert_eq!(
        calculate_mip_count(16, 16, 1, u32::MAX, Some(CompressionSpeed::Slow)),
        3
    );
}

#[test]
fn uniform_source_resamples_to_uniform_levels() {
    let mut image = r8_uniform_image(4, 4, 100);
    let mut added = 0usize;
    let mut cache = ContentCache::new();
    generate_mips_texture(&mut image, &default_settings(), &mut added, &mut cache).unwrap();
    assert_eq!(image.mip_level_count, 3);
    assert_eq!(image.data.len(), 16 + 4 + 1);
    let level2 = extract_mip_level(&image, 2).unwrap();
    assert_eq!(level2.data, vec![100u8; 4]);
    let level3 = extract_mip_level(&image, 3).unwrap();
    assert_eq!(level3.data, vec![100u8]);
}

#[test]
fn two_channel_images_resample_like_the_rest() {
    let mut image = Image {
        data: vec![50; 4 * 4 * 2],
        width: 4,
        height: 4,
        depth_or_array_layers: 1,
        dimension: TextureDimension::D2,
        format: TextureFormat::Rg8Unorm,
        mip_level_count: 1,
    };
    let mut added = 0usize;
    let mut cache = ContentCache::new();
    generate_mips_texture(&mut image, &default_settings(), &mut added, &mut cache).unwrap();
    assert_eq!(image.mip_level_count, 3);
    assert_eq!(image.data.len(), 32 + 8 + 2);
    let level2 = extract_mip_level(&image, 2).unwrap();
    assert_eq!(level2.data, vec![50u8; 8]);
}

#[test]
fn extraction_beyond_level_count_fails_descriptively() {
    let image = rgba_image(8, 8);
    let result = extract_mip_level(&image, 2);
    match result {
        Err(MipError::MipLevelOutOfRange) => {
            assert!(!MipError::MipLevelOutOfRange.describe().is_empty());
        },
        _ => panic!("expected a mip-level range error"),
    }
    // The source is untouched: still one level with its full buffer.
    assert_eq!(image.mip_level_count, 1);
    assert_eq!(image.data.len(), 8 * 8 * 4);
}

#[test]
fn incompatible_images_are_rejected() {
    let mut compressed = rgba_image(8, 8);
    compressed.format = TextureFormat::Bc7RgbaUnorm;
    assert_eq!(
        check_image_compatible(&compressed),
        Err(MipError::IncompatibleImage(IncompatibleKind::AlreadyCompressed))
    );

    let mut volume = rgba_image(8, 8);
    volume.dimension = TextureDimension::D3;
    assert_eq!(
        check_image_compatible(&volume),
        Err(MipError::IncompatibleImage(IncompatibleKind::NotTwoDimensional))
    );

    let mut layered = rgba_image(8, 8);
    layered.depth_or_array_layers = 2;
    assert_eq!(
        check_image_compatible(&layered),
        Err(MipError::IncompatibleImage(IncompatibleKind::MultipleLayers))
    );

    // A rejected image never reaches generation, and its siblings are not
    // affected: a later call on a good image still succeeds.
    let mut added = 0usize;
    let mut cache = ContentCache::new();
    let mut bad = rgba_image(8, 8);
    bad.dimension = TextureDimension::D3;
    assert!(generate_mips_texture(&mut bad, &default_settings(), &mut added, &mut cache).is_err());
    assert_eq!(bad.mip_level_count, 1);
    let mut good = rgba_image(8, 8);
    assert!(generate_mips_texture(&mut good, &default_settings(), &mut added, &mut cache).is_ok());
}

#[test]
fn raster_adapter_rejects_unmapped_and_short_buffers() {
    let mut compressed = rgba_image(8, 8);
    compressed.format = TextureFormat::Bc4RUnorm;
    assert_eq!(
        try_into_dynamic(compressed).err().unwrap(),
        MipError::UnsupportedPixelFormat
    );

    let mut truncated = rgba_image(8, 8);
    truncated.data.pop();
    assert_eq!(
        try_into_dynamic(truncated).err().unwrap(),
        MipError::ConversionFailed
    );

    let ok = try_into_dynamic(rgba_image(8, 8)).unwrap();
    assert_eq!(ok.width, 8);
    assert_eq!(ok.height, 8);
    assert_eq!(ok.channels, 4);
}

#[test]
fn block_compression_requires_block_dimensions() {
    let tiny = Raster { data: vec![0; 2 * 2 * 4], width: 2, height: 2, channels: 4 };
    assert_eq!(
        bcn_equivalent_format_of_dyn_image(&tiny, false).err().unwrap(),
        MipError::CompressionTooSmall
    );

    let unaligned = Raster { data: vec![0; 6 * 6], width: 6, height: 6, channels: 1 };
    assert_eq!(
        bcn_compress_dyn_image(CompressionSpeed::UltraFast, &unaligned)
            .err()
            .unwrap(),
        MipError::CompressionTooSmall
    );
}

#[test]
fn block_compression_emits_fixed_ratio_blocks() {
    let r8 = Raster { data: vec![128; 4 * 4], width: 4, height: 4, channels: 1 };
    let bc4 = bcn_compress_dyn_image(CompressionSpeed::UltraFast, &r8).unwrap();
    assert_eq!(bc4.len(), 8);

    let rg8 = Raster { data: vec![128; 4 * 4 * 2], width: 4, height: 4, channels: 2 };
    let bc5 = bcn_compress_dyn_image(CompressionSpeed::UltraFast, &rg8).unwrap();
    assert_eq!(bc5.len(), 16);

    let rgba = Raster { data: vec![128; 4 * 4 * 4], width: 4, height: 4, channels: 4 };
    let bc7 = bcn_compress_dyn_image(CompressionSpeed::Slow, &rgba).unwrap();
    assert_eq!(bc7.len(), 16);
}

#[test]
fn target_format_follows_channels_and_srgb() {
    let r8 = Raster { data: vec![0; 16], width: 4, height: 4, channels: 1 };
    assert_eq!(
        bcn_equivalent_format_of_dyn_image(&r8, false).unwrap(),
        TextureFormat::Bc4RUnorm
    );
    let rg8 = Raster { data: vec![0; 32], width: 4, height: 4, channels: 2 };
    assert_eq!(
        bcn_equivalent_format_of_dyn_image(&rg8, false).unwrap(),
        TextureFormat::Bc5RgUnorm
    );
    let rgba = Raster { data: vec![0; 64], width: 4, height: 4, channels: 4 };
    assert_eq!(
        bcn_equivalent_format_of_dyn_image(&rgba, false).unwrap(),
        TextureFormat::Bc7RgbaUnorm
    );
    assert_eq!(
        bcn_equivalent_format_of_dyn_image(&rgba, true).unwrap(),
        TextureFormat::Bc7RgbaUnormSrgb
    );
}

#[test]
fn default_settings_match_documentation() {
    let settings = MipmapGeneratorSettings::default();
    assert_eq!(settings.anisotropic_filtering, 8);
    assert_eq!(settings.filter_type, image::imageops::FilterType::Triangle);
    assert_eq!(settings.minimum_mip_resolution, 1);
    assert!(settings.compression.is_none());
    assert!(settings.compressed_image_data_cache_path.is_none());
}
