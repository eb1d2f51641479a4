//! Verified core of a Vulkan mesh-shading renderer: resource pools, descriptor
//! layout bookkeeping, material storage, upload planning and the decisions made
//! while setting up the device and the swapchain.

pub mod id;
pub mod slots;
pub mod flags;
pub mod buffers_pool;
pub mod mesh_buffers_pool;
pub mod samplers_pool;
pub mod materials;
pub mod scene_hierarchy;
pub mod text;
pub mod model_loading;
pub mod texture_upload;
pub mod texture_decoding;
pub mod descriptors;
pub mod device_setup;
pub mod debug_messages;
pub mod swappable_buffer;
pub mod registry;
pub mod textures_pool;
pub mod renderer_resources;
pub mod frame_planning;
pub mod renderer_setup;
pub mod entities;
