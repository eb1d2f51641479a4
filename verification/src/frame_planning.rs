use vstd::prelude::*;

use crate::descriptors::{DescriptorSetBuilder, DescriptorSetLayoutBindingInfo, LayoutBinding};
use crate::flags::{
    DESCRIPTOR_BINDING_PARTIALLY_BOUND, DESCRIPTOR_BINDING_VARIABLE_DESCRIPTOR_COUNT,
    DESCRIPTOR_TYPE_SAMPLED_IMAGE, DESCRIPTOR_TYPE_SAMPLER, DESCRIPTOR_TYPE_STORAGE_IMAGE,
    SHADER_STAGE_COMPUTE, SHADER_STAGE_FRAGMENT, SHADER_STAGE_MESH, SHADER_STAGE_TASK,
};
use crate::materials::spec_material_type_code;
use crate::materials::MaterialType;

verus! {

/// Side of the checkerboard texture used when a texture is missing.
pub const CHECKERBOARD_SIDE: usize = 16usize;

/// The color of texel `(x, y)` of the checkerboard: `even` where `x` and `y`
/// have the same parity, `odd` elsewhere.
pub open spec fn checker_color(x: int, y: int, even: u32, odd: u32) -> u32 {
    if x % 2 == y % 2 { even } else { odd }
}

/// The texels of the checkerboard, row after row.
pub fn checkerboard_pixels(even: u32, odd: u32) -> (pixels: Vec<u32>)
    ensures
        pixels@.len() == CHECKERBOARD_SIDE * CHECKERBOARD_SIDE,
        forall|y: int, x: int| 0 <= y < 16 && 0 <= x < 16 ==> #[trigger] pixels@[y * 16 + x] == checker_color(x, y, even, odd),
{
    let mut pixels: Vec<u32> = Vec::new();
    let mut y: usize = 0;
    while y < CHECKERBOARD_SIDE
        invariant
            y <= 16,
            pixels@.len() == y * 16,
            forall|yy: int, x: int| 0 <= yy < y && 0 <= x < 16 ==> #[trigger] pixels@[yy * 16 + x] == checker_color(x, yy, even, odd),
        decreases 16 - y,
    {
        let mut x: usize = 0;
        while x < CHECKERBOARD_SIDE
            invariant
                y < 16,
                x <= 16,
                pixels@.len() == y * 16 + x,
                forall|yy: int, xx: int| 0 <= yy < y && 0 <= xx < 16 ==> #[trigger] pixels@[yy * 16 + xx] == checker_color(xx, yy, even, odd),
                forall|xx: int| 0 <= xx < x ==> #[trigger] pixels@[y * 16 + xx] == checker_color(xx, y as int, even, odd),
            decreases 16 - x,
        {
            let color = if x % 2 == y % 2 { even } else { odd };
            pixels.push(color);
            x = x + 1;
        }
        y = y + 1;
    }
    pixels
}

/// The frame slot that frame `frame_number` uses among `frame_overlap` slots.
pub fn current_frame_index(frame_number: usize, frame_overlap: usize) -> (index: usize)
    requires
        frame_overlap > 0,
    ensures
        index == frame_number % frame_overlap,
        index < frame_overlap,
{
    frame_number % frame_overlap
}

/// State of one drawing pass over all meshes, for one material type.
#[derive(Clone, Copy, PartialEq, Eq, Structural, Debug)]
pub struct MaterialPass {
    pub material_type: u32,
    pub blend_enabled: bool,
    pub depth_write_enabled: bool,
}

/// The passes that draw the meshes: opaque materials first with depth writes
/// and no blending, then transparent ones blended without depth writes.
pub fn material_passes() -> (passes: Vec<MaterialPass>)
    ensures
        passes@.len() == 2,
        forall|t: int| 0 <= t < 2 ==> {
            &&& (#[trigger] passes@[t]).material_type == t
            &&& passes@[t].blend_enabled == (t == spec_material_type_code(MaterialType::Transparent))
            &&& passes@[t].depth_write_enabled == (t != spec_material_type_code(MaterialType::Transparent))
        },
{
    let mut passes: Vec<MaterialPass> = Vec::new();
    let transparent = MaterialType::Transparent.code() as u32;
    let mut material_type: u32 = 0;
    while material_type < 2
        invariant
            transparent == spec_material_type_code(MaterialType::Transparent),
            material_type <= 2,
            passes@.len() == material_type,
            forall|t: int| 0 <= t < material_type ==> {
                &&& (#[trigger] passes@[t]).material_type == t
                &&& passes@[t].blend_enabled == (t == spec_material_type_code(MaterialType::Transparent))
                &&& passes@[t].depth_write_enabled == (t != spec_material_type_code(MaterialType::Transparent))
            },
        decreases 2 - material_type,
    {
        let is_transparent = material_type == transparent;
        passes.push(MaterialPass { material_type, blend_enabled: is_transparent, depth_write_enabled: !is_transparent });
        material_type = material_type + 1;
    }
    passes
}

/// The number of mesh task groups dispatched per pass: one per mesh, narrowed
/// to 32 bits.
pub fn mesh_task_count(meshes_len: usize) -> (count: u32)
    ensures
        count == meshes_len as u32,
{
    meshes_len as u32
}

/// The shader stages that see the resource descriptor set and the push
/// constants.
pub const RESOURCE_SHADER_STAGES: u32 = SHADER_STAGE_COMPUTE | SHADER_STAGE_FRAGMENT | SHADER_STAGE_MESH | SHADER_STAGE_TASK;

/// The bindings of the resource descriptor set: 16 samplers, 128 storage
/// images and 10240 sampled images of variable count, all partially bound.
pub fn resources_descriptor_set_builder() -> (builder: DescriptorSetBuilder)
    ensures
        builder.bindings_infos() == seq![
            DescriptorSetLayoutBindingInfo {
                binding: LayoutBinding { binding: 0, descriptor_type: DESCRIPTOR_TYPE_SAMPLER, descriptor_count: 16, stage_flags: 0 },
                flags: DESCRIPTOR_BINDING_PARTIALLY_BOUND,
            },
            DescriptorSetLayoutBindingInfo {
                binding: LayoutBinding { binding: 1, descriptor_type: DESCRIPTOR_TYPE_STORAGE_IMAGE, descriptor_count: 128, stage_flags: 0 },
                flags: DESCRIPTOR_BINDING_PARTIALLY_BOUND,
            },
            DescriptorSetLayoutBindingInfo {
                binding: LayoutBinding { binding: 2, descriptor_type: DESCRIPTOR_TYPE_SAMPLED_IMAGE, descriptor_count: 10240, stage_flags: 0 },
                flags: DESCRIPTOR_BINDING_PARTIALLY_BOUND | DESCRIPTOR_BINDING_VARIABLE_DESCRIPTOR_COUNT,
            },
        ],
{
    let mut builder = DescriptorSetBuilder::new();
    builder.add_binding(DESCRIPTOR_TYPE_SAMPLER, 16, DESCRIPTOR_BINDING_PARTIALLY_BOUND);
    builder.add_binding(DESCRIPTOR_TYPE_STORAGE_IMAGE, 128, DESCRIPTOR_BINDING_PARTIALLY_BOUND);
    builder.add_binding(
        DESCRIPTOR_TYPE_SAMPLED_IMAGE,
        10240,
        DESCRIPTOR_BINDING_PARTIALLY_BOUND | DESCRIPTOR_BINDING_VARIABLE_DESCRIPTOR_COUNT,
    );
    assert(builder.bindings_infos() =~= seq![
        DescriptorSetLayoutBindingInfo {
            binding: LayoutBinding { binding: 0, descriptor_type: DESCRIPTOR_TYPE_SAMPLER, descriptor_count: 16, stage_flags: 0 },
            flags: DESCRIPTOR_BINDING_PARTIALLY_BOUND,
        },
        DescriptorSetLayoutBindingInfo {
            binding: LayoutBinding { binding: 1, descriptor_type: DESCRIPTOR_TYPE_STORAGE_IMAGE, descriptor_count: 128, stage_flags: 0 },
            flags: DESCRIPTOR_BINDING_PARTIALLY_BOUND,
        },
        DescriptorSetLayoutBindingInfo {
            binding: LayoutBinding { binding: 2, descriptor_type: DESCRIPTOR_TYPE_SAMPLED_IMAGE, descriptor_count: 10240, stage_flags: 0 },
            flags: DESCRIPTOR_BINDING_PARTIALLY_BOUND | DESCRIPTOR_BINDING_VARIABLE_DESCRIPTOR_COUNT,
        },
    ]);
    builder
}

} // verus!
