use engine::buffers_pool::BufferVisibility;
use engine::flags::{
    BUFFER_USAGE_SHADER_DEVICE_ADDRESS, BUFFER_USAGE_TRANSFER_DST, FORMAT_R16G16B16A16_SFLOAT, FORMAT_R8G8B8A8_SRGB,
    IMAGE_USAGE_COLOR_ATTACHMENT, IMAGE_USAGE_DEPTH_STENCIL_ATTACHMENT, IMAGE_USAGE_SAMPLED, IMAGE_USAGE_STORAGE,
    IMAGE_USAGE_TRANSFER_DST, IMAGE_USAGE_TRANSFER_SRC, SHADER_CREATE_LINK_STAGE, SHADER_STAGE_COMPUTE,
    SHADER_STAGE_FRAGMENT, SHADER_STAGE_MESH, SHADER_STAGE_TASK,
};
use engine::renderer_setup::{
    default_texture_requests, frame_texture_requests, renderer_buffer_requests, renderer_shader_plans, ShaderSource,
};
use engine::device_setup::{
    bytes_equal, choose_surface_format, choose_swapchain_extent, choose_swapchain_image_count, device_score,
    last_max_index, missing_extensions, select_physical_device, select_queue_family, supports_present_mode,
    Extent2D, QueueFamilyCandidate, SurfaceFormatCandidate, DISCRETE_GPU_BONUS,
};
use engine::flags::{
    COLOR_SPACE_SRGB_NONLINEAR, FORMAT_B8G8R8A8_SRGB, FORMAT_D32_SFLOAT, FORMAT_R8G8B8A8_UNORM, IMAGE_ASPECT_COLOR,
    IMAGE_ASPECT_DEPTH, PHYSICAL_DEVICE_TYPE_DISCRETE_GPU, QUEUE_GRAPHICS,
};
use engine::frame_planning::{
    checkerboard_pixels, current_frame_index, material_passes, mesh_task_count, CHECKERBOARD_SIDE,
};
use engine::texture_upload::{default_upload_size, mip_copy_regions, MipCopyRegion};
use engine::textures_pool::{
    image_aspect_for_format, image_create_plan, ImageReference, TextureMetadata, TextureReference, TexturesPool,
};
use engine::id::Id;

#[test]
fn discrete_gpus_score_higher() {
    assert_eq!(device_score(PHYSICAL_DEVICE_TYPE_DISCRETE_GPU, 16384), DISCRETE_GPU_BONUS + 16384);
    assert_eq!(device_score(1, 16384), 16384);
}

#[test]
fn the_last_of_the_best_scores_is_picked() {
    assert_eq!(select_physical_device(&vec![]), None);
    assert_eq!(select_physical_device(&vec![5, 9, 3]), Some(1));
    assert_eq!(select_physical_device(&vec![9, 2, 9, 1]), Some(2));
    assert_eq!(last_max_index(&vec![0]), Some(0));
}

#[test]
fn the_first_graphics_family_that_presents_is_picked() {
    let families = vec![
        QueueFamilyCandidate { queue_flags: 0x4, supports_surface: true },
        QueueFamilyCandidate { queue_flags: QUEUE_GRAPHICS, supports_surface: false },
        QueueFamilyCandidate { queue_flags: QUEUE_GRAPHICS | 0x2, supports_surface: true },
        QueueFamilyCandidate { queue_flags: QUEUE_GRAPHICS, supports_surface: true },
    ];
    assert_eq!(select_queue_family(&families), Some(2));
    assert_eq!(select_queue_family(&families[..2].to_vec()), None);
}

#[test]
fn missing_extensions_are_listed_by_position() {
    let required: Vec<Vec<u8>> = vec![b"VK_KHR_swapchain".to_vec(), b"VK_EXT_mesh_shader".to_vec(), b"VK_X".to_vec()];
    let available: Vec<Vec<u8>> = vec![b"VK_KHR_swapchain".to_vec(), b"VK_X_longer".to_vec()];
    assert_eq!(missing_extensions(&required, &available), vec![1, 2]);
    assert_eq!(missing_extensions(&required, &required), Vec::<usize>::new());
    assert!(bytes_equal(b"abc", b"abc"));
    assert!(!bytes_equal(b"abc", b"abcd"));
}

#[test]
fn srgb_bgra_is_preferred_as_surface_format() {
    let other = SurfaceFormatCandidate { format: FORMAT_R8G8B8A8_UNORM, color_space: COLOR_SPACE_SRGB_NONLINEAR };
    let wanted = SurfaceFormatCandidate { format: FORMAT_B8G8R8A8_SRGB, color_space: COLOR_SPACE_SRGB_NONLINEAR };
    assert_eq!(choose_surface_format(&vec![other, wanted, other]), Some(1));
    assert_eq!(choose_surface_format(&vec![other, other]), Some(1));
    assert_eq!(choose_surface_format(&vec![]), None);
}

#[test]
fn present_mode_support() {
    assert!(supports_present_mode(&vec![0, 2, 3], 2));
    assert!(!supports_present_mode(&vec![0, 3], 2));
}

#[test]
fn swapchain_extent_follows_the_surface_or_the_window() {
    let e = |width, height| Extent2D { width, height };
    assert_eq!(choose_swapchain_extent(e(800, 600), e(1, 1), e(4096, 4096), e(10, 10)), e(800, 600));
    assert_eq!(choose_swapchain_extent(e(u32::MAX, u32::MAX), e(100, 100), e(1000, 1000), e(5000, 50)), e(1000, 100));
    assert_eq!(choose_swapchain_extent(e(u32::MAX, u32::MAX), e(100, 100), e(1000, 1000), e(640, 480)), e(640, 480));
}

#[test]
fn swapchain_image_count_is_one_above_the_minimum_within_the_cap() {
    assert_eq!(choose_swapchain_image_count(2, 0), 3);
    assert_eq!(choose_swapchain_image_count(2, 8), 3);
    assert_eq!(choose_swapchain_image_count(3, 3), 3);
}

#[test]
fn checkerboard_alternates() {
    let pixels = checkerboard_pixels(0xff00ffff, 0xff000000);
    assert_eq!(pixels.len(), CHECKERBOARD_SIDE * CHECKERBOARD_SIDE);
    assert_eq!(pixels[0], 0xff00ffff);
    assert_eq!(pixels[1], 0xff000000);
    assert_eq!(pixels[16], 0xff000000);
    assert_eq!(pixels[17], 0xff00ffff);
    assert_eq!(pixels[255], 0xff00ffff);
}

#[test]
fn frames_cycle_through_their_slots() {
    assert_eq!(current_frame_index(0, 2), 0);
    assert_eq!(current_frame_index(5, 2), 1);
    assert_eq!(current_frame_index(7, 3), 1);
}

#[test]
fn opaque_pass_comes_before_the_blended_one() {
    let passes = material_passes();
    assert_eq!(passes.len(), 2);
    assert_eq!(passes[0].material_type, 0);
    assert!(!passes[0].blend_enabled && passes[0].depth_write_enabled);
    assert_eq!(passes[1].material_type, 1);
    assert!(passes[1].blend_enabled && !passes[1].depth_write_enabled);
    assert_eq!(mesh_task_count(12), 12);
}

#[test]
fn mip_regions_follow_each_other() {
    let regions = mip_copy_regions(16, 8, 4);
    let expected = vec![
        MipCopyRegion { buffer_offset: 0, mip_level: 0, width: 16, height: 8, depth: 1 },
        MipCopyRegion { buffer_offset: 64, mip_level: 1, width: 8, height: 4, depth: 1 },
        MipCopyRegion { buffer_offset: 80, mip_level: 2, width: 4, height: 2, depth: 1 },
        MipCopyRegion { buffer_offset: 88, mip_level: 3, width: 2, height: 1, depth: 1 },
    ];
    assert_eq!(regions, expected);
    assert_eq!(mip_copy_regions(5, 5, 0), Vec::new());
    assert_eq!(default_upload_size(4, 2), 64);
}

#[test]
fn image_plans_by_format() {
    assert_eq!(image_aspect_for_format(FORMAT_D32_SFLOAT), IMAGE_ASPECT_DEPTH);
    assert_eq!(image_aspect_for_format(FORMAT_B8G8R8A8_SRGB), IMAGE_ASPECT_COLOR);
    let plan = image_create_plan(FORMAT_R8G8B8A8_UNORM, None);
    assert_eq!((plan.mip_levels, plan.array_layers, plan.aspect_mask), (1, 1, IMAGE_ASPECT_COLOR));
    assert_eq!(image_create_plan(FORMAT_D32_SFLOAT, Some(5)).mip_levels, 5);
}

#[test]
fn textures_pool_finds_images_by_identifier() {
    let mut pool: TexturesPool<&str> = TexturesPool::new();
    let a = Id::new(11);
    let b = Id::new(12);
    assert!(!pool.contains(a));
    assert_eq!(pool.insert_image(a, "albedo"), 0);
    assert_eq!(pool.insert_image(b, "normal"), 1);
    assert_eq!(pool.get_image(b), Some(&"normal"));
    assert_eq!(pool.get_image(Id::new(13)), None);
    let metadata = TextureMetadata { width: 4, height: 4, mip_levels_count: 3 };
    let reference = ImageReference::new(a, metadata);
    assert_eq!(reference.get_image(&pool), Some(&"albedo"));
    assert_eq!(reference.get_image_id(&pool), a);
    assert!(ImageReference::new(Id::new(99), metadata).get_image_id(&pool).is_null());
    assert_eq!(reference.get_texture_metadata(), metadata);
    assert_eq!(TextureReference::default().texture_metadata.mip_levels_count, 0);
}

#[test]
fn shader_objects_are_compute_then_linked_mesh_stages() {
    let plans = renderer_shader_plans();
    let summary: Vec<(ShaderSource, u32, u32, u32)> =
        plans.iter().map(|p| (p.source, p.stage, p.next_stage, p.create_flags)).collect();
    assert_eq!(
        summary,
        vec![
            (ShaderSource::Gradient, SHADER_STAGE_COMPUTE, 0, 0),
            (ShaderSource::Mesh, SHADER_STAGE_TASK, SHADER_STAGE_MESH, SHADER_CREATE_LINK_STAGE),
            (ShaderSource::Mesh, SHADER_STAGE_MESH, SHADER_STAGE_FRAGMENT, SHADER_CREATE_LINK_STAGE),
            (ShaderSource::Mesh, SHADER_STAGE_FRAGMENT, 0, SHADER_CREATE_LINK_STAGE),
        ]
    );
}

#[test]
fn default_and_frame_textures() {
    let (checker, white) = default_texture_requests();
    assert_eq!((checker.width, checker.height, checker.format), (16, 16, FORMAT_R8G8B8A8_UNORM));
    assert_eq!((white.width, white.height, white.format), (1, 1, FORMAT_R8G8B8A8_SRGB));
    assert_eq!(white.usage, IMAGE_USAGE_SAMPLED | IMAGE_USAGE_TRANSFER_DST);
    let (draw, depth) = frame_texture_requests(1280, 720);
    assert_eq!((draw.width, draw.height, draw.format), (1280, 720, FORMAT_R16G16B16A16_SFLOAT));
    assert_eq!(draw.usage, IMAGE_USAGE_TRANSFER_SRC | IMAGE_USAGE_STORAGE | IMAGE_USAGE_COLOR_ATTACHMENT);
    assert_eq!((depth.width, depth.height, depth.format), (1280, 720, FORMAT_D32_SFLOAT));
    assert_eq!(depth.usage, IMAGE_USAGE_DEPTH_STENCIL_ATTACHMENT);
}

#[test]
fn renderer_buffers_per_frame_and_shared() {
    let r = renderer_buffer_requests(3, 80, 96, 48);
    let usage = BUFFER_USAGE_SHADER_DEVICE_ADDRESS | BUFFER_USAGE_TRANSFER_DST;
    assert_eq!((r.materials_data.size, r.materials_data.usage), (64 * 1024 * 1024, usage));
    assert_eq!(r.materials_data.visibility, BufferVisibility::HostVisible);
    assert_eq!(r.instance_objects.len(), 3);
    assert!(r.instance_objects.iter().all(|b| b.size == 80 * 4096 && b.visibility == BufferVisibility::HostVisible));
    assert_eq!(r.scene_data.len(), 3);
    assert!(r.scene_data.iter().all(|b| b.size == 96 && b.usage == usage));
    assert_eq!((r.mesh_objects.size, r.mesh_objects.visibility), (48 * 8192, BufferVisibility::DeviceOnly));
}

#[test]
fn freeing_the_textures_pool_hands_back_every_image() {
    let mut pool: TexturesPool<u32> = TexturesPool::new();
    pool.insert_image(Id::new(5), 50);
    pool.insert_image(Id::new(6), 60);
    assert_eq!(pool.free_allocations(), vec![50, 60]);
    assert!(!pool.contains(Id::new(5)));
    assert_eq!(pool.get_image(Id::new(6)), None);
    assert_eq!(pool.insert_image(Id::new(5), 70), 0);
}
