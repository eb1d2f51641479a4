use vstd::prelude::*;

use crate::buffers_pool::BufferVisibility;
use crate::flags::{
    BUFFER_USAGE_SHADER_DEVICE_ADDRESS, BUFFER_USAGE_TRANSFER_DST, FORMAT_D32_SFLOAT, FORMAT_R16G16B16A16_SFLOAT,
    FORMAT_R8G8B8A8_SRGB, FORMAT_R8G8B8A8_UNORM, IMAGE_USAGE_COLOR_ATTACHMENT,
    IMAGE_USAGE_DEPTH_STENCIL_ATTACHMENT, IMAGE_USAGE_SAMPLED, IMAGE_USAGE_STORAGE, IMAGE_USAGE_TRANSFER_DST,
    IMAGE_USAGE_TRANSFER_SRC, SHADER_CREATE_LINK_STAGE, SHADER_STAGE_COMPUTE, SHADER_STAGE_FRAGMENT,
    SHADER_STAGE_MESH, SHADER_STAGE_TASK,
};

verus! {

/// The compiled shader file a shader object is created from.
#[derive(Clone, Copy, PartialEq, Eq, Structural, Debug)]
pub enum ShaderSource {
    Gradient,
    Mesh,
}

/// How one shader object is created: from which file, for which stage, which
/// stage follows it, and with which creation flags.
#[derive(Clone, Copy, PartialEq, Eq, Structural, Debug)]
pub struct ShaderStagePlan {
    pub source: ShaderSource,
    pub stage: u32,
    pub next_stage: u32,
    pub create_flags: u32,
}

pub open spec fn spec_renderer_shader_plans() -> Seq<ShaderStagePlan> {
    seq![
        ShaderStagePlan { source: ShaderSource::Gradient, stage: SHADER_STAGE_COMPUTE, next_stage: 0, create_flags: 0 },
        ShaderStagePlan {
            source: ShaderSource::Mesh,
            stage: SHADER_STAGE_TASK,
            next_stage: SHADER_STAGE_MESH,
            create_flags: SHADER_CREATE_LINK_STAGE,
        },
        ShaderStagePlan {
            source: ShaderSource::Mesh,
            stage: SHADER_STAGE_MESH,
            next_stage: SHADER_STAGE_FRAGMENT,
            create_flags: SHADER_CREATE_LINK_STAGE,
        },
        ShaderStagePlan {
            source: ShaderSource::Mesh,
            stage: SHADER_STAGE_FRAGMENT,
            next_stage: 0,
            create_flags: SHADER_CREATE_LINK_STAGE,
        },
    ]
}

/// The shader objects of the renderer, in the order it keeps them: the
/// gradient compute shader alone, then the task, mesh and fragment stages of
/// the mesh shader, linked, each naming the stage after it.
pub fn renderer_shader_plans() -> (plans: Vec<ShaderStagePlan>)
    ensures
        plans@ == spec_renderer_shader_plans(),
{
    let mut plans: Vec<ShaderStagePlan> = Vec::new();
    plans.push(ShaderStagePlan { source: ShaderSource::Gradient, stage: SHADER_STAGE_COMPUTE, next_stage: 0, create_flags: 0 });
    plans.push(ShaderStagePlan {
        source: ShaderSource::Mesh,
        stage: SHADER_STAGE_TASK,
        next_stage: SHADER_STAGE_MESH,
        create_flags: SHADER_CREATE_LINK_STAGE,
    });
    plans.push(ShaderStagePlan {
        source: ShaderSource::Mesh,
        stage: SHADER_STAGE_MESH,
        next_stage: SHADER_STAGE_FRAGMENT,
        create_flags: SHADER_CREATE_LINK_STAGE,
    });
    plans.push(ShaderStagePlan {
        source: ShaderSource::Mesh,
        stage: SHADER_STAGE_FRAGMENT,
        next_stage: 0,
        create_flags: SHADER_CREATE_LINK_STAGE,
    });
    assert(plans@ =~= spec_renderer_shader_plans());
    plans
}

/// The extent, format and usage an image is created with.
#[derive(Clone, Copy, PartialEq, Eq, Structural, Debug)]
pub struct TextureRequest {
    pub width: u32,
    pub height: u32,
    pub format: u32,
    pub usage: u32,
}

/// The two textures every material can fall back on: the 16 by 16
/// checkerboard shown for a missing texture, and a single white texel.
pub fn default_texture_requests() -> (r: (TextureRequest, TextureRequest))
    ensures
        r.0 == (TextureRequest {
            width: 16,
            height: 16,
            format: FORMAT_R8G8B8A8_UNORM,
            usage: IMAGE_USAGE_SAMPLED | IMAGE_USAGE_TRANSFER_DST,
        }),
        r.1 == (TextureRequest {
            width: 1,
            height: 1,
            format: FORMAT_R8G8B8A8_SRGB,
            usage: IMAGE_USAGE_SAMPLED | IMAGE_USAGE_TRANSFER_DST,
        }),
{
    let usage = IMAGE_USAGE_SAMPLED | IMAGE_USAGE_TRANSFER_DST;
    (
        TextureRequest { width: 16, height: 16, format: FORMAT_R8G8B8A8_UNORM, usage },
        TextureRequest { width: 1, height: 1, format: FORMAT_R8G8B8A8_SRGB, usage },
    )
}

/// The images each frame in flight draws into, at the size of the drawing
/// area: a half-float color image the compute shader writes and that is
/// copied out, and a depth image.
pub fn frame_texture_requests(draw_width: u32, draw_height: u32) -> (r: (TextureRequest, TextureRequest))
    ensures
        r.0 == (TextureRequest {
            width: draw_width,
            height: draw_height,
            format: FORMAT_R16G16B16A16_SFLOAT,
            usage: IMAGE_USAGE_TRANSFER_SRC | IMAGE_USAGE_STORAGE | IMAGE_USAGE_COLOR_ATTACHMENT,
        }),
        r.1 == (TextureRequest {
            width: draw_width,
            height: draw_height,
            format: FORMAT_D32_SFLOAT,
            usage: IMAGE_USAGE_DEPTH_STENCIL_ATTACHMENT,
        }),
{
    (
        TextureRequest {
            width: draw_width,
            height: draw_height,
            format: FORMAT_R16G16B16A16_SFLOAT,
            usage: IMAGE_USAGE_TRANSFER_SRC | IMAGE_USAGE_STORAGE | IMAGE_USAGE_COLOR_ATTACHMENT,
        },
        TextureRequest {
            width: draw_width,
            height: draw_height,
            format: FORMAT_D32_SFLOAT,
            usage: IMAGE_USAGE_DEPTH_STENCIL_ATTACHMENT,
        },
    )
}

/// Size in bytes of the buffer that holds the data of every material.
pub const MATERIALS_DATA_BUFFER_SIZE: usize = 0x400_0000usize;

/// How many instance objects one frame can draw.
pub const MAX_INSTANCE_OBJECTS: usize = 4096usize;

/// How many mesh objects the mesh objects buffer holds.
pub const MAX_MESH_OBJECTS: usize = 8192usize;

/// The size, usage and memory of a buffer to create.
#[derive(Clone, Copy, PartialEq, Eq, Structural, Debug)]
pub struct BufferRequest {
    pub size: usize,
    pub usage: u32,
    pub visibility: BufferVisibility,
}

/// The buffers the renderer creates at setup.
pub struct RendererBufferRequests {
    pub materials_data: BufferRequest,
    pub instance_objects: Vec<BufferRequest>,
    pub scene_data: Vec<BufferRequest>,
    pub mesh_objects: BufferRequest,
}

pub open spec fn addressable_upload_target(size: usize, visibility: BufferVisibility) -> BufferRequest {
    BufferRequest { size, usage: BUFFER_USAGE_SHADER_DEVICE_ADDRESS | BUFFER_USAGE_TRANSFER_DST, visibility }
}

/// Every buffer the renderer requests is filled by transfers and addressed
/// from shaders, whatever memory it lives in: its usage names both, and two
/// requests that differ only in visibility have the same usage.
pub proof fn law_setup_buffers_are_addressable_upload_targets(
    size: usize,
    visibility: BufferVisibility,
    other_visibility: BufferVisibility,
)
    ensures
        addressable_upload_target(size, visibility).usage & BUFFER_USAGE_TRANSFER_DST == BUFFER_USAGE_TRANSFER_DST,
        addressable_upload_target(size, visibility).usage & BUFFER_USAGE_SHADER_DEVICE_ADDRESS
            == BUFFER_USAGE_SHADER_DEVICE_ADDRESS,
        addressable_upload_target(size, visibility).usage == addressable_upload_target(size, other_visibility).usage,
        addressable_upload_target(size, visibility).size == size,
        addressable_upload_target(size, visibility).visibility == visibility,
{
    assert((0x2_0000u32 | 0x2u32) & 0x2u32 == 0x2u32) by (bit_vector);
    assert((0x2_0000u32 | 0x2u32) & 0x2_0000u32 == 0x2_0000u32) by (bit_vector);
}

/// The buffers of the renderer, all addressed from shaders and filled by
/// transfers: one host-visible buffer for material data; per frame in flight,
/// one host-visible buffer of instance objects and one of scene data; and one
/// device-only buffer of mesh objects.
pub fn renderer_buffer_requests(
    frame_overlap: usize,
    instance_object_size: usize,
    scene_data_size: usize,
    mesh_object_size: usize,
) -> (r: RendererBufferRequests)
    requires
        instance_object_size * MAX_INSTANCE_OBJECTS <= usize::MAX,
        mesh_object_size * MAX_MESH_OBJECTS <= usize::MAX,
    ensures
        r.materials_data == addressable_upload_target(MATERIALS_DATA_BUFFER_SIZE, BufferVisibility::HostVisible),
        r.instance_objects@.len() == frame_overlap,
        forall|i: int| 0 <= i < frame_overlap ==> #[trigger] r.instance_objects@[i] == addressable_upload_target(
            (instance_object_size * MAX_INSTANCE_OBJECTS) as usize,
            BufferVisibility::HostVisible,
        ),
        r.scene_data@.len() == frame_overlap,
        forall|i: int| 0 <= i < frame_overlap ==> #[trigger] r.scene_data@[i] == addressable_upload_target(
            scene_data_size,
            BufferVisibility::HostVisible,
        ),
        r.mesh_objects == addressable_upload_target(
            (mesh_object_size * MAX_MESH_OBJECTS) as usize,
            BufferVisibility::DeviceOnly,
        ),
        r.materials_data.usage == BUFFER_USAGE_SHADER_DEVICE_ADDRESS | BUFFER_USAGE_TRANSFER_DST,
        r.materials_data.size == MATERIALS_DATA_BUFFER_SIZE,
        r.materials_data.visibility == BufferVisibility::HostVisible,
        forall|i: int| 0 <= i < frame_overlap ==> {
            &&& (#[trigger] r.instance_objects@[i]).usage == BUFFER_USAGE_SHADER_DEVICE_ADDRESS | BUFFER_USAGE_TRANSFER_DST
            &&& r.instance_objects@[i].size == instance_object_size * MAX_INSTANCE_OBJECTS
            &&& r.instance_objects@[i].visibility == BufferVisibility::HostVisible
        },
        forall|i: int| 0 <= i < frame_overlap ==> {
            &&& (#[trigger] r.scene_data@[i]).usage == BUFFER_USAGE_SHADER_DEVICE_ADDRESS | BUFFER_USAGE_TRANSFER_DST
            &&& r.scene_data@[i].size == scene_data_size
            &&& r.scene_data@[i].visibility == BufferVisibility::HostVisible
        },
        r.mesh_objects.usage == BUFFER_USAGE_SHADER_DEVICE_ADDRESS | BUFFER_USAGE_TRANSFER_DST,
        r.mesh_objects.size == mesh_object_size * MAX_MESH_OBJECTS,
        r.mesh_objects.visibility == BufferVisibility::DeviceOnly,
{
    let usage = BUFFER_USAGE_SHADER_DEVICE_ADDRESS | BUFFER_USAGE_TRANSFER_DST;
    let instance_request = BufferRequest {
        size: instance_object_size * MAX_INSTANCE_OBJECTS,
        usage,
        visibility: BufferVisibility::HostVisible,
    };
    let scene_request = BufferRequest { size: scene_data_size, usage, visibility: BufferVisibility::HostVisible };
    let mut instance_objects: Vec<BufferRequest> = Vec::new();
    let mut scene_data: Vec<BufferRequest> = Vec::new();
    let mut i: usize = 0;
    while i < frame_overlap
        invariant
            i <= frame_overlap,
            instance_objects@.len() == i,
            scene_data@.len() == i,
            forall|j: int| 0 <= j < i ==> #[trigger] instance_objects@[j] == instance_request,
            forall|j: int| 0 <= j < i ==> #[trigger] scene_data@[j] == scene_request,
        decreases frame_overlap - i,
    {
        instance_objects.push(instance_request);
        scene_data.push(scene_request);
        i = i + 1;
    }
    RendererBufferRequests {
        materials_data: BufferRequest {
            size: MATERIALS_DATA_BUFFER_SIZE,
            usage,
            visibility: BufferVisibility::HostVisible,
        },
        instance_objects,
        scene_data,
        mesh_objects: BufferRequest {
            size: mesh_object_size * MAX_MESH_OBJECTS,
            usage,
            visibility: BufferVisibility::DeviceOnly,
        },
    }
}

} // verus!
