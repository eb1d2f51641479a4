use vstd::prelude::*;

verus! {

// Bits of `VkBufferUsageFlagBits`.
pub const BUFFER_USAGE_TRANSFER_SRC: u32 = 0x1u32;
pub const BUFFER_USAGE_TRANSFER_DST: u32 = 0x2u32;
pub const BUFFER_USAGE_UNIFORM_BUFFER: u32 = 0x10u32;
pub const BUFFER_USAGE_STORAGE_BUFFER: u32 = 0x20u32;
pub const BUFFER_USAGE_SHADER_DEVICE_ADDRESS: u32 = 0x2_0000u32;
pub const BUFFER_USAGE_SAMPLER_DESCRIPTOR_BUFFER: u32 = 0x20_0000u32;
pub const BUFFER_USAGE_RESOURCE_DESCRIPTOR_BUFFER: u32 = 0x40_0000u32;

// Bits of `VkMemoryPropertyFlagBits`.
pub const MEMORY_PROPERTY_DEVICE_LOCAL: u32 = 0x1u32;
pub const MEMORY_PROPERTY_HOST_VISIBLE: u32 = 0x2u32;
pub const MEMORY_PROPERTY_HOST_COHERENT: u32 = 0x4u32;

// Bits of `VmaAllocationCreateFlagBits`.
pub const ALLOCATION_CREATE_MAPPED: u32 = 0x4u32;
pub const ALLOCATION_CREATE_HOST_ACCESS_SEQUENTIAL_WRITE: u32 = 0x400u32;
pub const ALLOCATION_CREATE_HOST_ACCESS_RANDOM: u32 = 0x800u32;
pub const ALLOCATION_CREATE_STRATEGY_MIN_MEMORY: u32 = 0x1_0000u32;

// Values of `VkDescriptorType`.
pub const DESCRIPTOR_TYPE_SAMPLER: u32 = 0u32;
pub const DESCRIPTOR_TYPE_COMBINED_IMAGE_SAMPLER: u32 = 1u32;
pub const DESCRIPTOR_TYPE_SAMPLED_IMAGE: u32 = 2u32;
pub const DESCRIPTOR_TYPE_STORAGE_IMAGE: u32 = 3u32;
pub const DESCRIPTOR_TYPE_UNIFORM_BUFFER: u32 = 6u32;
pub const DESCRIPTOR_TYPE_STORAGE_BUFFER: u32 = 7u32;

// Bits of `VkDescriptorBindingFlagBits`.
pub const DESCRIPTOR_BINDING_UPDATE_AFTER_BIND: u32 = 0x1u32;
pub const DESCRIPTOR_BINDING_PARTIALLY_BOUND: u32 = 0x4u32;
pub const DESCRIPTOR_BINDING_VARIABLE_DESCRIPTOR_COUNT: u32 = 0x8u32;

// Bits of `VkShaderStageFlagBits`.
pub const SHADER_STAGE_FRAGMENT: u32 = 0x10u32;
pub const SHADER_STAGE_COMPUTE: u32 = 0x20u32;
pub const SHADER_STAGE_TASK: u32 = 0x40u32;
pub const SHADER_STAGE_MESH: u32 = 0x80u32;

// Bits of `VkDescriptorSetLayoutCreateFlagBits`.
pub const DESCRIPTOR_SET_LAYOUT_CREATE_DESCRIPTOR_BUFFER: u32 = 0x10u32;

// Values of `VkFilter`.
pub const FILTER_NEAREST: u32 = 0u32;
pub const FILTER_LINEAR: u32 = 1u32;

// Values of `VkSamplerMipmapMode`.
pub const SAMPLER_MIPMAP_MODE_NEAREST: u32 = 0u32;
pub const SAMPLER_MIPMAP_MODE_LINEAR: u32 = 1u32;

// Values of `VkCompareOp`.
pub const COMPARE_OP_NEVER: u32 = 0u32;
pub const COMPARE_OP_ALWAYS: u32 = 7u32;

// Values of `VkSamplerAddressMode`.
pub const SAMPLER_ADDRESS_MODE_REPEAT: u32 = 0u32;

// Bits of `VkImageUsageFlagBits`.
pub const IMAGE_USAGE_TRANSFER_SRC: u32 = 0x1u32;
pub const IMAGE_USAGE_TRANSFER_DST: u32 = 0x2u32;
pub const IMAGE_USAGE_SAMPLED: u32 = 0x4u32;
pub const IMAGE_USAGE_STORAGE: u32 = 0x8u32;
pub const IMAGE_USAGE_COLOR_ATTACHMENT: u32 = 0x10u32;
pub const IMAGE_USAGE_DEPTH_STENCIL_ATTACHMENT: u32 = 0x20u32;

// Bits of `VkShaderCreateFlagBitsEXT`.
pub const SHADER_CREATE_LINK_STAGE: u32 = 0x1u32;

// Bits of `VkImageAspectFlagBits`.
pub const IMAGE_ASPECT_COLOR: u32 = 0x1u32;
pub const IMAGE_ASPECT_DEPTH: u32 = 0x2u32;

// Values of `VkFormat` that the renderer distinguishes.
pub const FORMAT_R8G8B8A8_UNORM: u32 = 37u32;
pub const FORMAT_R8G8B8A8_SRGB: u32 = 43u32;
pub const FORMAT_B8G8R8A8_SRGB: u32 = 50u32;
pub const FORMAT_R16G16B16A16_SFLOAT: u32 = 97u32;
pub const FORMAT_D32_SFLOAT: u32 = 126u32;
pub const FORMAT_BC1_RGB_SRGB_BLOCK: u32 = 132u32;

// Values of `VkColorSpaceKHR`.
pub const COLOR_SPACE_SRGB_NONLINEAR: u32 = 0u32;

// Bits of `VkQueueFlagBits`.
pub const QUEUE_GRAPHICS: u32 = 0x1u32;

// Values of `VkPhysicalDeviceType`.
pub const PHYSICAL_DEVICE_TYPE_DISCRETE_GPU: u32 = 2u32;

} // verus!
