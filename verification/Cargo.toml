[package]
name = "engine"
version = "0.1.0"
edition = "2021"
publish = false

[dependencies]
ash = "=0.37.3"
asset-importer = "=0.8.0"
bevy_ecs = "=0.17.3"
bytemuck = { version = "=1.25.2", features = ["derive"] }
dolly = "=0.6.0"
glam = { version = "=0.30.10", features = ["bytemuck"] }
image = { version = "=0.25.10", default-features = false, features = ["png", "jpeg"] }
ktx2-rw = "=0.2.4"
meshopt = "=0.7.0"
raw-window-handle = "=0.6.2"
vma = "=0.3.1"
vulkanite = { version = "=0.0.12", features = ["loaded", "raw-window-handle", "ext_surface", "ext_swapchain", "ext_debug_utils", "ext_descriptor_buffer", "ext_mesh_shader", "ext_shader_object", "ext_unified_image_layouts", "version_1_4"] }
winit = { version = "=0.30.13", default-features = false, features = ["rwh_06", "x11"] }
