use std::collections::HashMap;

use engine::buffers_pool::BufferReference;
use engine::debug_messages::{
    classify_debug_message, DebugLabel, DebugLogLine, DebugLogState, MESSAGE_TYPE_GENERAL, MESSAGE_TYPE_PERFORMANCE,
    MESSAGE_TYPE_VALIDATION, SEVERITY_ERROR, SEVERITY_INFO, SEVERITY_VERBOSE, SEVERITY_WARNING,
};
use engine::descriptors::{
    bindings_by_type, get_descriptor_buffer_aligned_size, BindingInfo, DescriptorKind, DescriptorLayoutBuilder,
    DescriptorSampledImage, DescriptorSampler, DescriptorSetBuilder, DescriptorSetHandle, DescriptorStorageImage,
    DescriptorsSizes, LayoutBinding,
};
use engine::flags::{
    DESCRIPTOR_BINDING_PARTIALLY_BOUND, DESCRIPTOR_BINDING_VARIABLE_DESCRIPTOR_COUNT, DESCRIPTOR_TYPE_SAMPLED_IMAGE,
    DESCRIPTOR_TYPE_SAMPLER, DESCRIPTOR_TYPE_STORAGE_BUFFER, DESCRIPTOR_TYPE_STORAGE_IMAGE,
    DESCRIPTOR_TYPE_UNIFORM_BUFFER, SHADER_STAGE_COMPUTE, SHADER_STAGE_FRAGMENT, SHADER_STAGE_MESH,
    SHADER_STAGE_TASK,
};
use engine::frame_planning::{resources_descriptor_set_builder, RESOURCE_SHADER_STAGES};
use engine::id::Id;
use engine::registry::IdRegistry;
use engine::renderer_resources::{MeshBuffer, RendererResources, ResourcesPool};
use engine::samplers_pool::SamplerReference;
use engine::swappable_buffer::SwappableBuffer;
use engine::textures_pool::TextureReference;

#[test]
fn descriptor_buffer_sizes_round_up_to_the_alignment() {
    assert_eq!(get_descriptor_buffer_aligned_size(0, 64), 0);
    assert_eq!(get_descriptor_buffer_aligned_size(1, 64), 64);
    assert_eq!(get_descriptor_buffer_aligned_size(64, 64), 64);
    assert_eq!(get_descriptor_buffer_aligned_size(100, 64), 128);
    assert_eq!(get_descriptor_buffer_aligned_size(7, 1), 7);
}

#[test]
fn layout_builder_hands_out_its_bindings_once() {
    let mut builder = DescriptorLayoutBuilder::new();
    builder.add_binding(0, DESCRIPTOR_TYPE_UNIFORM_BUFFER);
    builder.add_binding(1, DESCRIPTOR_TYPE_STORAGE_BUFFER);
    let bindings = builder.build(SHADER_STAGE_FRAGMENT);
    assert_eq!(
        bindings,
        vec![
            LayoutBinding { binding: 0, descriptor_type: DESCRIPTOR_TYPE_UNIFORM_BUFFER, descriptor_count: 1, stage_flags: SHADER_STAGE_FRAGMENT },
            LayoutBinding { binding: 1, descriptor_type: DESCRIPTOR_TYPE_STORAGE_BUFFER, descriptor_count: 1, stage_flags: SHADER_STAGE_FRAGMENT },
        ]
    );
    assert!(builder.build(SHADER_STAGE_FRAGMENT).is_empty());
    builder.add_binding(3, DESCRIPTOR_TYPE_SAMPLER);
    builder.clear();
    assert!(builder.build(0).is_empty());
}

#[test]
fn resource_set_bindings_are_numbered_in_order() {
    let builder = resources_descriptor_set_builder();
    assert_eq!(
        builder.descriptor_types(),
        vec![DESCRIPTOR_TYPE_SAMPLER, DESCRIPTOR_TYPE_STORAGE_IMAGE, DESCRIPTOR_TYPE_SAMPLED_IMAGE]
    );
    let plan = builder.layout_create_plan(RESOURCE_SHADER_STAGES);
    assert_eq!(plan.bindings.len(), 3);
    assert_eq!(plan.bindings[0].binding, 0);
    assert_eq!(plan.bindings[1].descriptor_count, 128);
    assert_eq!(plan.bindings[2].binding, 2);
    assert_eq!(plan.bindings[2].descriptor_count, 10240);
    assert_eq!(plan.bindings[2].stage_flags, RESOURCE_SHADER_STAGES);
    assert_eq!(
        plan.bindings_flags,
        vec![
            DESCRIPTOR_BINDING_PARTIALLY_BOUND,
            DESCRIPTOR_BINDING_PARTIALLY_BOUND,
            DESCRIPTOR_BINDING_PARTIALLY_BOUND | DESCRIPTOR_BINDING_VARIABLE_DESCRIPTOR_COUNT,
        ]
    );
    assert_eq!(
        RESOURCE_SHADER_STAGES,
        SHADER_STAGE_COMPUTE | SHADER_STAGE_FRAGMENT | SHADER_STAGE_MESH | SHADER_STAGE_TASK
    );
}

#[test]
fn set_builder_numbers_bindings_after_the_earlier_ones() {
    let mut builder = DescriptorSetBuilder::new();
    builder.add_binding(DESCRIPTOR_TYPE_SAMPLED_IMAGE, 4, 0);
    builder.add_binding(DESCRIPTOR_TYPE_SAMPLER, 2, DESCRIPTOR_BINDING_PARTIALLY_BOUND);
    let plan = builder.layout_create_plan(SHADER_STAGE_MESH);
    assert_eq!(plan.bindings[1].binding, 1);
    assert_eq!(plan.bindings[1].descriptor_type, DESCRIPTOR_TYPE_SAMPLER);
    builder.clear();
    assert!(builder.descriptor_types().is_empty());
}

#[test]
fn a_later_binding_of_a_type_replaces_an_earlier_one() {
    let m = bindings_by_type(&vec![DESCRIPTOR_TYPE_SAMPLER, DESCRIPTOR_TYPE_SAMPLED_IMAGE, DESCRIPTOR_TYPE_SAMPLER], &vec![0, 32, 64]);
    assert_eq!(m.len(), 2);
    assert_eq!(m[&DESCRIPTOR_TYPE_SAMPLER], BindingInfo { binding_offset: 64 });
    assert_eq!(m[&DESCRIPTOR_TYPE_SAMPLED_IMAGE], BindingInfo { binding_offset: 32 });
}

#[test]
fn descriptors_are_written_at_their_slot() {
    let mut bindings_infos = HashMap::new();
    bindings_infos.insert(DESCRIPTOR_TYPE_SAMPLER, BindingInfo { binding_offset: 0 });
    bindings_infos.insert(DESCRIPTOR_TYPE_STORAGE_IMAGE, BindingInfo { binding_offset: 256 });
    bindings_infos.insert(DESCRIPTOR_TYPE_SAMPLED_IMAGE, BindingInfo { binding_offset: 1024 });
    let handle = DescriptorSetHandle {
        buffer: (),
        descriptor_set_layout: (),
        descriptor_set_layout_size: 4096,
        bindings_infos,
        pipeline_layout: (),
        descriptors_sizes: DescriptorsSizes {
            sampled_image_descriptor_size: 32,
            sampler_descriptor_size: 16,
            storage_image_descriptor_size: 8,
        },
    };
    let sampled: DescriptorKind<u64, u64> = DescriptorKind::SampledImage(DescriptorSampledImage { image_view: 1, index: 3 });
    let w = handle.update_binding(&sampled);
    assert_eq!((w.descriptor_type, w.offset, w.size), (DESCRIPTOR_TYPE_SAMPLED_IMAGE, 1024 + 3 * 32, 32));
    let storage: DescriptorKind<u64, u64> = DescriptorKind::StorageImage(DescriptorStorageImage { image_view: 1, index: 2 });
    let w = handle.update_binding(&storage);
    assert_eq!((w.descriptor_type, w.offset, w.size), (DESCRIPTOR_TYPE_STORAGE_IMAGE, 256 + 16, 8));
    let sampler: DescriptorKind<u64, u64> = DescriptorKind::Sampler(DescriptorSampler { sampler: 9, index: 5 });
    assert_eq!(sampler.get_descriptor_type(), DESCRIPTOR_TYPE_SAMPLER);
    assert_eq!(sampler.slot_index(), 5);
    assert_eq!(handle.update_binding(&sampler).offset, 80);
}

fn msg(
    state: DebugLogState,
    severity: u32,
    ty: u32,
    text: &str,
) -> (DebugLogState, Option<DebugLogLine>) {
    let d = classify_debug_message(state, severity, ty, text.as_bytes());
    (d.state, d.line)
}

const FRESH: DebugLogState = DebugLogState { in_device_setup: false, device_reported: false };

#[test]
fn errors_and_warnings_are_labelled_by_type() {
    let label = |l| Some(DebugLogLine::Message { label: l });
    assert_eq!(msg(FRESH, SEVERITY_ERROR, MESSAGE_TYPE_VALIDATION, "bad").1, label(DebugLabel::ValidationError));
    assert_eq!(msg(FRESH, SEVERITY_ERROR, MESSAGE_TYPE_PERFORMANCE, "bad").1, label(DebugLabel::PerformanceError));
    assert_eq!(msg(FRESH, SEVERITY_ERROR, MESSAGE_TYPE_GENERAL, "bad").1, label(DebugLabel::GeneralError));
    assert_eq!(msg(FRESH, SEVERITY_ERROR, 0x8, "bad").1, label(DebugLabel::Error));
    assert_eq!(msg(FRESH, SEVERITY_WARNING, MESSAGE_TYPE_VALIDATION, "meh").1, label(DebugLabel::ValidationWarning));
    assert_eq!(msg(FRESH, SEVERITY_WARNING, 0x8, "meh").1, label(DebugLabel::Warning));
    assert_eq!(msg(FRESH, SEVERITY_VERBOSE, MESSAGE_TYPE_GENERAL, "Device").1, None);
}

#[test]
fn general_info_is_shown_only_when_of_interest() {
    let info = Some(DebugLogLine::Message { label: DebugLabel::Info });
    assert_eq!(msg(FRESH, SEVERITY_INFO, MESSAGE_TYPE_GENERAL, "Queue family 0").1, info);
    assert_eq!(msg(FRESH, SEVERITY_INFO, MESSAGE_TYPE_GENERAL, "loader scanning").1, None);
    assert_eq!(msg(FRESH, SEVERITY_INFO, MESSAGE_TYPE_GENERAL, "vkCreateDevice called").1, None);
    assert_eq!(msg(FRESH, SEVERITY_INFO, MESSAGE_TYPE_GENERAL, "vkCreateDevice success").1, info);
    assert_eq!(
        msg(FRESH, SEVERITY_INFO, MESSAGE_TYPE_VALIDATION, "x").1,
        Some(DebugLogLine::Message { label: DebugLabel::Validation })
    );
}

#[test]
fn device_setup_callstack_is_skipped() {
    let (s, line) = msg(FRESH, SEVERITY_INFO, MESSAGE_TYPE_GENERAL, "vkCreateDevice layer callstack setup to:");
    assert!(s.in_device_setup && line.is_none());
    let (s2, line) = msg(s, SEVERITY_ERROR, MESSAGE_TYPE_GENERAL, "Device layer");
    assert!(s2.in_device_setup && line.is_none());
    let (s3, line) = msg(s2, SEVERITY_INFO, MESSAGE_TYPE_GENERAL, "<Device> end");
    assert!(!s3.in_device_setup && line.is_none());
    assert_eq!(msg(FRESH, SEVERITY_ERROR, MESSAGE_TYPE_GENERAL, "Inserted device layer X").1, None);
}

#[test]
fn the_device_in_use_is_reported_once() {
    let text = "Using \"GPU 0\" with driver: x";
    let (s, line) = msg(FRESH, SEVERITY_INFO, MESSAGE_TYPE_GENERAL, text);
    assert_eq!(line, Some(DebugLogLine::DeviceInUse { name_start: 7, name_end: 12 }));
    assert_eq!(&text[7..12], "GPU 0");
    assert!(s.device_reported);
    let (s2, line) = msg(s, SEVERITY_INFO, MESSAGE_TYPE_GENERAL, text);
    assert!(s2.device_reported);
    assert_ne!(line, Some(DebugLogLine::DeviceInUse { name_start: 7, name_end: 12 }));
    let (s3, line) = msg(FRESH, SEVERITY_INFO, MESSAGE_TYPE_PERFORMANCE, text);
    assert!(!s3.device_reported && line.is_none());
}

fn reference(index: usize) -> BufferReference {
    BufferReference { index, generation: 1, ..BufferReference::default() }
}

#[test]
fn swappable_buffer_cycles_and_forgets_its_bytes() {
    let mut s = SwappableBuffer::new(vec![reference(0), reference(1), reference(2)]);
    assert_eq!(s.get_current_buffer(), reference(0));
    assert_eq!(s.write_data_to_current_buffer(&[1, 2, 3]), 2);
    assert_eq!(s.write_data_to_current_buffer(&[4]), 3);
    assert_eq!(s.get_objects_to_write_as_slice(), &[1, 2, 3, 4]);
    s.next_buffer();
    assert_eq!(s.get_current_buffer(), reference(1));
    assert!(s.get_objects_to_write_as_slice().is_empty());
    s.next_buffer();
    s.next_buffer();
    assert_eq!(s.get_current_buffer(), reference(0));
    s.write_data_to_current_buffer(&[9]);
    s.clear_objects_to_write();
    assert!(s.get_objects_to_write_as_slice().is_empty());
}

#[test]
fn registry_keeps_the_first_item_under_an_identifier() {
    let mut r: IdRegistry<&str> = IdRegistry::new();
    assert_eq!(r.insert(Id::new(4), "a"), Id::new(4));
    r.insert(Id::new(9), "b");
    r.insert(Id::new(4), "c");
    assert_eq!(r.len(), 2);
    assert_eq!(*r.get(Id::new(4)), "a");
    *r.get_mut(Id::new(9)) = "d";
    assert_eq!(r.items(), vec![&"a", &"d"]);
}

fn mesh_buffer(id: u64) -> MeshBuffer {
    MeshBuffer {
        id: Id::new(id),
        mesh_object_device_address: 0x100 * id,
        vertex_buffer_reference: reference(0),
        vertex_indices_buffer_reference: reference(1),
        meshlets_buffer_reference: reference(2),
        local_indices_buffer_reference: reference(3),
        meshlets_count: 4,
    }
}

#[test]
fn renderer_resources_keep_meshes_textures_and_instances() {
    let mut pool: ResourcesPool<&str, &str> = ResourcesPool::new();
    pool.instances_buffer = Some(SwappableBuffer::new(vec![reference(5), reference(6)]));
    let mut resources = RendererResources {
        default_texture_reference: TextureReference::default(),
        fallback_texture_reference: TextureReference::default(),
        default_sampler_reference: SamplerReference { index: 0, generation: 1 },
        mesh_objects_buffer_reference: reference(7),
        resources_pool: pool,
        is_printed_scene_hierarchy: false,
    };
    assert_eq!(resources.insert_mesh_buffer(mesh_buffer(2)), Id::new(2));
    resources.insert_mesh_buffer(mesh_buffer(3));
    assert_eq!(resources.get_mesh_buffer_ref(Id::new(3)).mesh_object_device_address, 0x300);
    resources.get_mesh_buffer_ref_mut(Id::new(3)).meshlets_count = 10;
    assert_eq!(resources.get_mesh_buffers_iter().iter().map(|m| m.meshlets_count).collect::<Vec<_>>(), vec![4, 10]);
    resources.insert_texture(Id::new(1), "checker");
    resources.insert_sampler(Id::new(1), "linear");
    assert_eq!(*resources.get_texture_ref(Id::new(1)), "checker");
    assert_eq!(*resources.get_sampler(Id::new(1)), "linear");
    assert_eq!(resources.get_textures_iter(), vec![&"checker"]);
    *resources.get_texture_ref_mut(Id::new(1)) = "white";
    *resources.get_sampler_ref_mut(Id::new(1)) = "nearest";
    assert_eq!(*resources.get_texture_ref(Id::new(1)), "white");
    assert_eq!(*resources.get_sampler(Id::new(1)), "nearest");
    assert_eq!(resources.get_samplers_iter(), vec![&"nearest"]);
    assert_eq!(resources.write_instance_object(&[1, 2, 3, 4]), 3);
    assert_eq!(resources.write_instance_object(&[5, 6, 7, 8]), 7);
    let material = resources.write_material(&[0; 16], engine::materials::MaterialState {
        material_type: engine::materials::MaterialType::Transparent,
    });
    resources.set_materials_labels_device_addresses(0x4000);
    let info = resources.get_material_data_device_address_by_id(material);
    assert_eq!(info.device_adddress_materail_data, 0x4000);
    assert_eq!(resources.get_materials_data_to_write_len(), 16);
}
