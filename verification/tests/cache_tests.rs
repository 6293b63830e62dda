use mipmap_generator::cache::{cache_file_name, calculate_hash, ContentCache};
use mipmap_generator::formats::{TextureDimension, TextureFormat};
use mipmap_generator::pipeline::generate_mips_texture;
use mipmap_generator::settings::{CompressionSpeed, MipmapGeneratorSettings};
use mipmap_generator::texture::Image;

fn rgba_image(width: u32, height: u32) -> Image {
    let mut data = Vec::new();
    for i in 0..(width as usize * height as usize * 4) {
        data.push((i % 239) as u8);
    }
    Image {
        data,
        width,
        height,
        depth_or_array_layers: 1,
        dimension: TextureDimension::D2,
        format: TextureFormat::Rgba8Unorm,
        mip_level_count: 1,
    }
}

#[test]
fn store_then_load_returns_identical_bytes() {
    let mut cache = ContentCache::new();
    let bytes: Vec<u8> = (0..=255u8).cycle().take(5000).collect();
    cache.store(0xdead, &bytes);
    assert_eq!(cache.load(0xdead).unwrap(), bytes);
    // The stored entry is really compressed, not the input handed back.
    assert_ne!(cache.get_raw(0xdead).unwrap(), &bytes);
    // A different hash misses.
    assert!(cache.load(0xbeef).is_none());
}

#[test]
fn hydrated_entries_round_trip_through_raw_access() {
    let mut cache = ContentCache::new();
    let bytes = vec![9u8; 300];
    cache.store(7, &bytes);
    let on_disk = cache.get_raw(7).unwrap().clone();

    // A fresh cache hydrated with the on-disk bytes serves the same data.
    let mut rehydrated = ContentCache::new();
    rehydrated.insert_raw(7, on_disk);
    assert_eq!(rehydrated.load(7).unwrap(), bytes);
}

#[test]
fn single_byte_change_forces_cache_miss() {
    let image = rgba_image(8, 8);
    let mut mutated = rgba_image(8, 8);
    mutated.data[17] ^= 1;
    let hash = calculate_hash(&image);
    let mutated_hash = calculate_hash(&mutated);
    assert_ne!(hash, mutated_hash);

    let mut cache = ContentCache::new();
    cache.store(hash, &vec![1, 2, 3]);
    assert!(cache.load(mutated_hash).is_none());
}

#[test]
fn hash_covers_format_and_dimensions() {
    let image = rgba_image(8, 8);
    let mut srgb = rgba_image(8, 8);
    srgb.format = TextureFormat::Rgba8UnormSrgb;
    assert_ne!(calculate_hash(&image), calculate_hash(&srgb));

    let wide = rgba_image(16, 4);
    let tall = rgba_image(4, 16);
    assert_ne!(calculate_hash(&wide), calculate_hash(&tall));
}

#[test]
fn hash_ignores_generation_settings() {
    // The cache key covers source content only, never settings: two
    // identical sources hash identically whatever will be done to them.
    assert_eq!(
        calculate_hash(&rgba_image(8, 8)),
        calculate_hash(&rgba_image(8, 8))
    );
}

#[test]
fn cache_file_names_are_lowercase_hex() {
    assert_eq!(cache_file_name(0x1a2b), b"1a2b".to_vec());
    assert_eq!(cache_file_name(0), b"0".to_vec());
    assert_eq!(cache_file_name(u64::MAX), b"ffffffffffffffff".to_vec());
    assert_eq!(cache_file_name(16), b"10".to_vec());
}

#[test]
fn compressed_generation_populates_and_reuses_cache() {
    let mut settings = MipmapGeneratorSettings::default();
    settings.compression = Some(CompressionSpeed::UltraFast);
    settings.compressed_image_data_cache_path = Some(String::from("cache"));

    let mut image = rgba_image(16, 16);
    let hash = calculate_hash(&image);
    let mut added = 0usize;
    let mut cache = ContentCache::new();
    generate_mips_texture(&mut image, &settings, &mut added, &mut cache).unwrap();
    assert_eq!(image.format, TextureFormat::Bc7RgbaUnorm);
    assert_eq!(added, image.data.len());
    let stored = cache.load(hash).unwrap();
    assert_eq!(stored, image.data);

    // A second generation of the same source is served from the cache:
    // the counter does not grow again and the data is byte-identical.
    let mut second = rgba_image(16, 16);
    let mut added_again = 0usize;
    generate_mips_texture(&mut second, &settings, &mut added_again, &mut cache).unwrap();
    assert_eq!(added_again, 0);
    assert_eq!(second.data, image.data);
    assert_eq!(second.mip_level_count, image.mip_level_count);
}

#[test]
fn uncompressed_output_is_never_cached() {
    let mut settings = MipmapGeneratorSettings::default();
    settings.compressed_image_data_cache_path = Some(String::from("cache"));

    let mut image = rgba_image(8, 8);
    let mut added = 0usize;
    let mut cache = ContentCache::new();
    generate_mips_texture(&mut image, &settings, &mut added, &mut cache).unwrap();
    assert_eq!(added, 0);
    assert!(cache.entries.is_empty());
}
