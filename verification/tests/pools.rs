use engine::buffers_pool::{
    staging_buffer_plan, STAGING_BUFFER_SIZE,
    buffer_create_plan, whole_copy_region, AllocatedBuffer, BufferInfo, BufferReference, BufferVisibility,
    BuffersPool, BUFFER_SLOT_COUNT,
};
use engine::mesh_buffers_pool::{MeshBuffer, MeshBuffersPool};
use engine::samplers_pool::{sampler_create_plan, SamplerReference, SamplersPool, SAMPLER_SLOT_COUNT};

fn host_buffer(handle: u64, size: u64) -> AllocatedBuffer<u64> {
    AllocatedBuffer { handle, buffer_info: BufferInfo::new(0x1000 + handle, size, BufferVisibility::HostVisible) }
}

#[test]
fn buffers_pool_hands_out_slots_in_increasing_order() {
    let mut pool: BuffersPool<u64> = BuffersPool::new();
    assert_eq!(pool.free_count(), BUFFER_SLOT_COUNT);
    let a = pool.insert_buffer(host_buffer(7, 64));
    let b = pool.insert_buffer(host_buffer(8, 128));
    assert_eq!(a.index, 0);
    assert_eq!(b.index, 1);
    assert_eq!(a.generation, 1);
    assert_eq!(pool.free_count(), BUFFER_SLOT_COUNT - 2);
    assert_eq!(pool.get_buffer(a).map(|x| x.handle), Some(7));
    assert_eq!(pool.get_buffer(b).map(|x| x.handle), Some(8));
    assert_eq!(a.get_buffer_info().size, 64);
    assert_eq!(a.get_buffer_info().device_address, 0x1007);
}

#[test]
fn stale_or_empty_references_resolve_to_nothing() {
    let mut pool: BuffersPool<u64> = BuffersPool::new();
    let a = pool.insert_buffer(host_buffer(1, 16));
    let stale = BufferReference { generation: 2, ..a };
    assert!(pool.get_buffer(stale).is_none());
    let unused = BufferReference { index: 5, ..BufferReference::default() };
    assert!(pool.get_buffer(unused).is_none());
    assert!(a.get_buffer(&pool).is_some());
}

#[test]
fn transfer_goes_direct_or_through_staging() {
    let mut pool: BuffersPool<u64> = BuffersPool::new();
    let staging = pool.insert_buffer(host_buffer(1, 1 << 26));
    pool.set_staging_buffer_reference(staging);
    assert_eq!(pool.get_staging_buffer_reference(), staging);
    let host = pool.insert_buffer(host_buffer(2, 256));
    let device = pool.insert_buffer(AllocatedBuffer {
        handle: 3,
        buffer_info: BufferInfo::new(0x3000, 256, BufferVisibility::DeviceOnly),
    });
    let direct = pool.plan_transfer(host);
    assert_eq!(direct.mapped_target, host);
    assert_eq!(direct.device_copy, None);
    let staged = pool.plan_transfer(device);
    assert_eq!(staged.mapped_target, staging);
    assert_eq!(staged.device_copy, Some(device));
    let region = whole_copy_region(100);
    assert_eq!((region.src_offset, region.dst_offset, region.size), (0, 0, 100));
}

#[test]
fn buffer_create_plan_picks_flags_by_size_and_visibility() {
    let small = buffer_create_plan(1024, 0x2, BufferVisibility::HostVisible);
    assert_eq!(small.usage_flags, 0x2 | 0x10 | 0x2_0000);
    assert_eq!(small.allocation_flags, 0x4 | 0x400 | 0x1_0000);
    assert_eq!(small.required_memory_flags, 0x1);
    assert_eq!(small.preferred_memory_flags, 0x4);
    assert_eq!(small.size, 1024);
    let large = buffer_create_plan(65536, 0x1, BufferVisibility::DeviceOnly);
    assert_eq!(large.usage_flags, 0x1 | 0x20 | 0x2_0000);
    assert_eq!(large.allocation_flags, 0x1_0000);
    assert_eq!(large.preferred_memory_flags, 0);
}

#[test]
fn free_allocations_hands_back_every_slot() {
    let mut pool: BuffersPool<u64> = BuffersPool::new();
    pool.insert_buffer(host_buffer(4, 8));
    let drained = pool.free_allocations();
    assert_eq!(drained.len(), BUFFER_SLOT_COUNT);
    assert_eq!(drained[0].as_ref().map(|b| b.handle), Some(4));
    assert!(drained[1].is_none());
}

#[test]
fn samplers_pool_resolves_current_generation_only() {
    let mut pool: SamplersPool<u32> = SamplersPool::new();
    assert_eq!(pool.free_count(), SAMPLER_SLOT_COUNT);
    let r = pool.insert_sampler(42);
    let s = pool.insert_sampler(43);
    assert_eq!(r, SamplerReference { index: 0, generation: 1 });
    assert_eq!(s.index, 1);
    assert_eq!(pool.get_sampler(r), Some(42));
    assert_eq!(pool.get_sampler(s), Some(43));
    assert_eq!(pool.get_sampler(SamplerReference::default()), None);
    let all = pool.destroy_samplers();
    assert_eq!(all.len(), SAMPLER_SLOT_COUNT);
    assert_eq!(all[0], Some(42));
    assert_eq!(all[2], None);
}

#[test]
fn sampler_plan_follows_mip_mapping() {
    let mipped = sampler_create_plan(1, 0, true);
    assert_eq!(mipped.mipmap_mode, 1);
    assert_eq!(mipped.compare_op, 7);
    assert!(mipped.unclamped_max_lod);
    assert_eq!((mipped.mag_filter, mipped.min_filter), (1, 1));
    let nearest = sampler_create_plan(0, 2, true);
    assert_eq!(nearest.mipmap_mode, 0);
    let plain = sampler_create_plan(1, 2, false);
    assert_eq!(plain.mipmap_mode, 0);
    assert_eq!(plain.compare_op, 0);
    assert!(!plain.unclamped_max_lod);
    assert_eq!((plain.address_mode_u, plain.address_mode_v, plain.address_mode_w), (2, 2, 2));
}

#[test]
fn mesh_buffers_pool_reads_back_what_was_inserted() {
    let mut pool = MeshBuffersPool::new(3);
    assert_eq!(pool.free_count(), 3);
    let mut first = MeshBuffer::default();
    first.meshlets_count = 12;
    let mut second = MeshBuffer::default();
    second.meshlets_count = 34;
    let a = pool.insert_mesh_buffer(first);
    let b = pool.insert_mesh_buffer(second);
    assert_eq!(a.index, 0);
    assert_eq!(b.index, 1);
    assert_eq!(pool.get_mesh_buffer(a).meshlets_count, 12);
    assert_eq!(pool.get_mesh_buffer(b).meshlets_count, 34);
    pool.get_mut_mesh_buffer(a).mesh_object_device_address = 0x40;
    assert_eq!(pool.get_mesh_buffer(a).mesh_object_device_address, 0x40);
    assert_eq!(pool.free_count(), 1);
}

#[test]
fn the_default_reference_names_no_stored_buffer() {
    let mut pool: BuffersPool<u64> = BuffersPool::new();
    assert!(pool.get_buffer(BufferReference::default()).is_none());
    let staging = pool.insert_buffer(host_buffer(1, 1 << 26));
    assert_eq!(staging.index, 0);
    assert!(pool.get_buffer(BufferReference::default()).is_none());
    assert_eq!(pool.get_buffer(staging).map(|b| b.handle), Some(1));
}

#[test]
fn the_default_reference_names_no_stored_sampler() {
    let mut pool: SamplersPool<u64> = SamplersPool::new();
    assert_eq!(pool.get_sampler(SamplerReference::default()), None);
    let first = pool.insert_sampler(9);
    assert_eq!(first.index, 0);
    assert_eq!(pool.get_sampler(SamplerReference::default()), None);
    assert_eq!(pool.get_sampler(first), Some(9));
}

#[test]
fn a_pool_with_its_staging_buffer_keeps_it_in_slot_zero() {
    let mut pool: BuffersPool<u64> = BuffersPool::with_staging_buffer(42, 0xabc0);
    let staging = pool.get_staging_buffer_reference();
    assert_eq!((staging.index, staging.generation), (0, 1));
    assert_eq!(staging.get_buffer_info().size, STAGING_BUFFER_SIZE as u64);
    assert_eq!(staging.get_buffer_info().device_address, 0xabc0);
    assert_eq!(staging.get_buffer_info().buffer_visibility, BufferVisibility::HostVisible);
    assert_eq!(pool.get_buffer(staging).map(|b| b.handle), Some(42));
    assert_eq!(pool.free_count(), BUFFER_SLOT_COUNT - 1);
    let next = pool.insert_buffer(host_buffer(5, 32));
    assert_eq!((next.index, next.generation), (1, 1));
}

#[test]
fn the_staging_plan_is_a_host_visible_transfer_source() {
    let plan = staging_buffer_plan();
    assert_eq!(plan.size, 64 * 1024 * 1024);
    assert_eq!(plan.usage_flags, 0x1 | 0x20 | 0x2_0000);
    assert_eq!(plan.allocation_flags, 0x4 | 0x400 | 0x1_0000);
    assert_eq!(plan.preferred_memory_flags, 0x4);
}
