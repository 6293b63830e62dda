use std::collections::HashMap;

use mipmap_generator::cache::CachedDataSize;
use mipmap_generator::coordinator::{
    complete_task, generate_mipmaps, GetImages, MipmapTasks, StandardMaterial, TaskData,
};
use mipmap_generator::formats::{TextureDimension, TextureFormat};
use mipmap_generator::texture::Image;

fn single_level_image(width: u32, height: u32) -> Image {
    Image {
        data: vec![7; width as usize * height as usize * 4],
        width,
        height,
        depth_or_array_layers: 1,
        dimension: TextureDimension::D2,
        format: TextureFormat::Rgba8Unorm,
        mip_level_count: 1,
    }
}

fn material_with(image_id: u64) -> StandardMaterial {
    StandardMaterial {
        base_color_texture: Some(image_id),
        emissive_texture: None,
        metallic_roughness_texture: None,
        normal_map_texture: None,
        occlusion_texture: None,
    }
}

#[test]
fn concurrent_requests_spawn_once_and_notify_all() {
    let mut images: HashMap<u64, Image> = HashMap::new();
    images.insert(1, single_level_image(8, 8));
    let mut materials: HashMap<u64, StandardMaterial> = HashMap::new();
    materials.insert(10, material_with(1));
    materials.insert(11, material_with(1));

    let mut tasks = MipmapTasks::new();
    let events = vec![10u64, 11u64];
    let no_mipmap: Vec<u64> = Vec::new();

    // Both materials request image 1 before any completion: exactly one
    // computation is spawned.
    let spawn = generate_mipmaps(&mut tasks, &events, &no_mipmap, &materials, &images);
    assert_eq!(spawn, vec![1u64]);
    assert_eq!(tasks.tasks.get(&1).unwrap(), &vec![10u64, 11u64]);

    // A later tick with the task still pending spawns nothing more.
    let spawn_again = generate_mipmaps(&mut tasks, &events, &no_mipmap, &materials, &images);
    assert!(spawn_again.is_empty());
    assert_eq!(tasks.tasks.get(&1).unwrap(), &vec![10u64, 11u64, 10u64, 11u64]);

    // Completion splices the result in exactly once and notifies every
    // consumer that attached while the task was in flight.
    let mut finished = single_level_image(8, 8);
    finished.mip_level_count = 4;
    let mut counter = CachedDataSize(0);
    let (notified, warned) = complete_task(
        &mut tasks,
        &mut images,
        &mut counter,
        1,
        TaskData { added_cache_size: 123, image: finished },
    );
    assert_eq!(notified, vec![10u64, 11u64, 10u64, 11u64]);
    assert!(!warned);
    assert!(tasks.tasks.is_empty());
    assert_eq!(images.get(&1).unwrap().mip_level_count, 4);
    assert_eq!(counter.0, 123);
}

#[test]
fn opted_out_materials_change_nothing() {
    let mut images: HashMap<u64, Image> = HashMap::new();
    images.insert(1, single_level_image(8, 8));
    let mut materials: HashMap<u64, StandardMaterial> = HashMap::new();
    materials.insert(10, material_with(1));

    let mut tasks = MipmapTasks::new();
    let events = vec![10u64];
    let no_mipmap = vec![10u64];

    let spawn = generate_mipmaps(&mut tasks, &events, &no_mipmap, &materials, &images);
    assert!(spawn.is_empty());
    assert!(tasks.tasks.is_empty());
    // The flagged consumer's image keeps its level count: no computation
    // ran, so no completion will ever touch it.
    assert_eq!(images.get(&1).unwrap().mip_level_count, 1);
}

#[test]
fn ineligible_images_are_not_spawned() {
    let mut images: HashMap<u64, Image> = HashMap::new();
    let mut mipmapped = single_level_image(8, 8);
    mipmapped.mip_level_count = 4;
    images.insert(1, mipmapped);
    let mut compressed = single_level_image(8, 8);
    compressed.format = TextureFormat::Bc7RgbaUnorm;
    images.insert(2, compressed);

    let mut materials: HashMap<u64, StandardMaterial> = HashMap::new();
    materials.insert(10, material_with(1));
    materials.insert(11, material_with(2));
    materials.insert(12, material_with(99));

    let mut tasks = MipmapTasks::new();
    let spawn = generate_mipmaps(
        &mut tasks,
        &vec![10u64, 11u64, 12u64],
        &Vec::new(),
        &materials,
        &images,
    );
    assert!(spawn.is_empty());
    assert!(tasks.tasks.is_empty());
}

#[test]
fn stale_completions_are_discarded_without_panic() {
    let mut images: HashMap<u64, Image> = HashMap::new();
    let mut tasks = MipmapTasks::new();
    tasks.tasks.insert(5, vec![42u64]);
    let mut counter = CachedDataSize(7);

    let (notified, warned) = complete_task(
        &mut tasks,
        &mut images,
        &mut counter,
        5,
        TaskData { added_cache_size: 999, image: single_level_image(4, 4) },
    );
    assert!(notified.is_empty());
    assert!(!warned);
    assert!(tasks.tasks.is_empty());
    assert!(images.is_empty());
    assert_eq!(counter.0, 7);
}

#[test]
fn cache_counter_warns_on_each_gigabyte_boundary() {
    let mut images: HashMap<u64, Image> = HashMap::new();
    images.insert(1, single_level_image(4, 4));
    let mut tasks = MipmapTasks::new();
    tasks.tasks.insert(1, vec![10u64]);
    let mut counter = CachedDataSize(1024 * 1024 * 1024 - 1);

    let (_, warned) = complete_task(
        &mut tasks,
        &mut images,
        &mut counter,
        1,
        TaskData { added_cache_size: 1, image: single_level_image(4, 4) },
    );
    assert!(warned);
    assert_eq!(counter.0, 1024 * 1024 * 1024);

    images.insert(2, single_level_image(4, 4));
    tasks.tasks.insert(2, vec![10u64]);
    let (_, warned_again) = complete_task(
        &mut tasks,
        &mut images,
        &mut counter,
        2,
        TaskData { added_cache_size: 1, image: single_level_image(4, 4) },
    );
    assert!(!warned_again);
}

#[test]
fn standard_material_lists_its_textures_in_order() {
    let material = StandardMaterial {
        base_color_texture: Some(1),
        emissive_texture: None,
        metallic_roughness_texture: Some(3),
        normal_map_texture: Some(4),
        occlusion_texture: None,
    };
    assert_eq!(material.get_images(), vec![1u64, 3u64, 4u64]);
}
