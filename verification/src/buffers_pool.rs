use vstd::prelude::*;

use crate::flags::{
    ALLOCATION_CREATE_HOST_ACCESS_SEQUENTIAL_WRITE, ALLOCATION_CREATE_MAPPED,
    ALLOCATION_CREATE_STRATEGY_MIN_MEMORY, BUFFER_USAGE_SHADER_DEVICE_ADDRESS, BUFFER_USAGE_TRANSFER_SRC,
    BUFFER_USAGE_STORAGE_BUFFER, BUFFER_USAGE_UNIFORM_BUFFER, MEMORY_PROPERTY_DEVICE_LOCAL,
    MEMORY_PROPERTY_HOST_COHERENT,
};
use crate::slots::SlotArena;

verus! {

/// Where the memory of a buffer lives.
#[derive(Clone, Copy, PartialEq, Eq, Structural, Debug)]
pub enum BufferVisibility {
    Unspecified,
    HostVisible,
    DeviceOnly,
}

impl Default for BufferVisibility {
    fn default() -> (v: Self)
        ensures
            v == BufferVisibility::Unspecified,
    {
        BufferVisibility::Unspecified
    }
}

/// What the renderer remembers of a buffer besides its handles.
#[derive(Clone, Copy, PartialEq, Eq, Structural, Debug)]
pub struct BufferInfo {
    pub device_address: u64,
    pub size: u64,
    pub buffer_visibility: BufferVisibility,
}

impl BufferInfo {
    pub fn new(device_address: u64, size: u64, buffer_visibility: BufferVisibility) -> (info: Self)
        ensures
            info.device_address == device_address,
            info.size == size,
            info.buffer_visibility == buffer_visibility,
    {
        BufferInfo { device_address, size, buffer_visibility }
    }
}

impl Default for BufferInfo {
    fn default() -> (info: Self)
        ensures
            info.device_address == 0,
            info.size == 0,
            info.buffer_visibility == BufferVisibility::Unspecified,
    {
        BufferInfo { device_address: 0, size: 0, buffer_visibility: BufferVisibility::Unspecified }
    }
}

/// A buffer created on the device: the handles the device gave (`handle`) and
/// what the renderer records of it.
pub struct AllocatedBuffer<H> {
    pub handle: H,
    pub buffer_info: BufferInfo,
}

/// A reference to a buffer of a [`BuffersPool`]: a slot index, the slot's
/// generation when the buffer was stored, and the buffer's info.
#[derive(Clone, Copy, PartialEq, Eq, Structural, Debug)]
pub struct BufferReference {
    pub index: usize,
    pub generation: usize,
    pub buffer_info: BufferInfo,
}

impl Default for BufferReference {
    fn default() -> (r: Self)
        ensures
            r.index == 0,
            r.generation == 0,
            r == BufferReference::default_spec(),
    {
        BufferReference { index: 0, generation: 0, buffer_info: BufferInfo::default() }
    }
}

impl BufferReference {
    /// The info recorded in the reference.
    pub open spec fn info(&self) -> BufferInfo {
        self.buffer_info
    }

    /// The info recorded when the buffer was stored.
    pub fn get_buffer_info(&self) -> (info: BufferInfo)
        ensures
            info == self.info(),
    {
        self.buffer_info
    }

    /// The buffer this reference names in `buffers_pool`, if it is still there.
    pub fn get_buffer<'a, H>(&'a self, buffers_pool: &'a BuffersPool<H>) -> (r: Option<&'a AllocatedBuffer<H>>)
        requires
            buffers_pool.wf(),
            self.index < buffers_pool.capacity(),
        ensures
            match r {
                Some(b) => buffers_pool.resolve(*self) == Some(*b),
                None => buffers_pool.resolve(*self) is None,
            },
    {
        buffers_pool.get_buffer(*self)
    }
}

/// Flags of a buffer to create, derived from its size, its usage and where it
/// lives.
#[derive(Clone, Copy, PartialEq, Eq, Structural, Debug)]
pub struct BufferCreatePlan {
    pub size: u64,
    pub usage_flags: u32,
    pub allocation_flags: u32,
    pub required_memory_flags: u32,
    pub preferred_memory_flags: u32,
}

/// Buffers smaller than this are uniform buffers, larger ones storage buffers.
pub const UNIFORM_BUFFER_SIZE_LIMIT: usize = 65536usize;

/// Number of slots of a buffers pool.
pub const BUFFER_SLOT_COUNT: usize = 2048usize;

/// Size of the staging buffer that device-only uploads go through.
pub const STAGING_BUFFER_SIZE: usize = 67108864usize;

pub open spec fn spec_buffer_kind_usage(allocation_size: usize) -> u32 {
    if allocation_size < UNIFORM_BUFFER_SIZE_LIMIT {
        BUFFER_USAGE_UNIFORM_BUFFER
    } else {
        BUFFER_USAGE_STORAGE_BUFFER
    }
}

pub open spec fn spec_buffer_create_plan(
    allocation_size: usize,
    usage: u32,
    buffer_visibility: BufferVisibility,
) -> BufferCreatePlan {
    BufferCreatePlan {
        size: allocation_size as u64,
        usage_flags: usage | spec_buffer_kind_usage(allocation_size) | BUFFER_USAGE_SHADER_DEVICE_ADDRESS,
        allocation_flags: if buffer_visibility == BufferVisibility::HostVisible {
            ALLOCATION_CREATE_MAPPED | ALLOCATION_CREATE_HOST_ACCESS_SEQUENTIAL_WRITE
                | ALLOCATION_CREATE_STRATEGY_MIN_MEMORY
        } else {
            ALLOCATION_CREATE_STRATEGY_MIN_MEMORY
        },
        required_memory_flags: MEMORY_PROPERTY_DEVICE_LOCAL,
        preferred_memory_flags: if buffer_visibility == BufferVisibility::HostVisible {
            MEMORY_PROPERTY_HOST_COHERENT
        } else {
            0
        },
    }
}

/// Whether a buffer is a uniform or a storage buffer depends on its size
/// alone: whatever its visibility, a buffer smaller than
/// [`UNIFORM_BUFFER_SIZE_LIMIT`] is a uniform buffer and not a storage
/// buffer, a larger one the other way round (when the usage asked for names
/// neither); every buffer keeps the usage asked for and is addressable from
/// shaders; and two buffers of one size and usage get the same usage flags
/// whatever their visibility.
pub proof fn law_buffer_kind_follows_size(
    allocation_size: usize,
    usage: u32,
    buffer_visibility: BufferVisibility,
    other_visibility: BufferVisibility,
)
    ensures
        spec_buffer_create_plan(allocation_size, usage, buffer_visibility).usage_flags
            == spec_buffer_create_plan(allocation_size, usage, other_visibility).usage_flags,
        spec_buffer_create_plan(allocation_size, usage, buffer_visibility).usage_flags & usage == usage,
        spec_buffer_create_plan(allocation_size, usage, buffer_visibility).usage_flags & BUFFER_USAGE_SHADER_DEVICE_ADDRESS
            == BUFFER_USAGE_SHADER_DEVICE_ADDRESS,
        usage & (BUFFER_USAGE_UNIFORM_BUFFER | BUFFER_USAGE_STORAGE_BUFFER) == 0 && allocation_size < UNIFORM_BUFFER_SIZE_LIMIT
            ==> spec_buffer_create_plan(allocation_size, usage, buffer_visibility).usage_flags & BUFFER_USAGE_UNIFORM_BUFFER != 0
            && spec_buffer_create_plan(allocation_size, usage, buffer_visibility).usage_flags & BUFFER_USAGE_STORAGE_BUFFER == 0,
        usage & (BUFFER_USAGE_UNIFORM_BUFFER | BUFFER_USAGE_STORAGE_BUFFER) == 0 && allocation_size >= UNIFORM_BUFFER_SIZE_LIMIT
            ==> spec_buffer_create_plan(allocation_size, usage, buffer_visibility).usage_flags & BUFFER_USAGE_STORAGE_BUFFER != 0
            && spec_buffer_create_plan(allocation_size, usage, buffer_visibility).usage_flags & BUFFER_USAGE_UNIFORM_BUFFER == 0,
{
    let f = spec_buffer_create_plan(allocation_size, usage, buffer_visibility).usage_flags;
    if allocation_size < UNIFORM_BUFFER_SIZE_LIMIT {
        assert(f == usage | 0x10u32 | 0x2_0000u32);
        assert((usage | 0x10u32 | 0x2_0000u32) & usage == usage) by (bit_vector);
        assert((usage | 0x10u32 | 0x2_0000u32) & 0x2_0000u32 == 0x2_0000u32) by (bit_vector);
        assert(usage & (0x10u32 | 0x20u32) == 0 ==> (usage | 0x10u32 | 0x2_0000u32) & 0x10u32 != 0
            && (usage | 0x10u32 | 0x2_0000u32) & 0x20u32 == 0) by (bit_vector);
    } else {
        assert(f == usage | 0x20u32 | 0x2_0000u32);
        assert((usage | 0x20u32 | 0x2_0000u32) & usage == usage) by (bit_vector);
        assert((usage | 0x20u32 | 0x2_0000u32) & 0x2_0000u32 == 0x2_0000u32) by (bit_vector);
        assert(usage & (0x10u32 | 0x20u32) == 0 ==> (usage | 0x20u32 | 0x2_0000u32) & 0x20u32 != 0
            && (usage | 0x20u32 | 0x2_0000u32) & 0x10u32 == 0) by (bit_vector);
    }
}

/// The flags a buffer of `allocation_size` bytes is created with: the usage
/// asked for, uniform or storage use by size, and device addressing; mapped
/// sequential-write memory preferring host coherence when the buffer is
/// host-visible. A buffer of unspecified visibility cannot be created.
pub fn buffer_create_plan(
    allocation_size: usize,
    usage: u32,
    buffer_visibility: BufferVisibility,
) -> (plan: BufferCreatePlan)
    requires
        buffer_visibility != BufferVisibility::Unspecified,
    ensures
        plan == spec_buffer_create_plan(allocation_size, usage, buffer_visibility),
        plan.size == allocation_size,
        plan.usage_flags == usage | (if allocation_size < UNIFORM_BUFFER_SIZE_LIMIT {
            BUFFER_USAGE_UNIFORM_BUFFER
        } else {
            BUFFER_USAGE_STORAGE_BUFFER
        }) | BUFFER_USAGE_SHADER_DEVICE_ADDRESS,
{
    let buffer_kind_usage = if allocation_size < UNIFORM_BUFFER_SIZE_LIMIT {
        BUFFER_USAGE_UNIFORM_BUFFER
    } else {
        BUFFER_USAGE_STORAGE_BUFFER
    };
    let (allocation_flags, preferred_memory_flags) = match buffer_visibility {
        BufferVisibility::HostVisible => (
            ALLOCATION_CREATE_MAPPED | ALLOCATION_CREATE_HOST_ACCESS_SEQUENTIAL_WRITE
                | ALLOCATION_CREATE_STRATEGY_MIN_MEMORY,
            MEMORY_PROPERTY_HOST_COHERENT,
        ),
        _ => (ALLOCATION_CREATE_STRATEGY_MIN_MEMORY, 0u32),
    };
    BufferCreatePlan {
        size: allocation_size as u64,
        usage_flags: usage | buffer_kind_usage | BUFFER_USAGE_SHADER_DEVICE_ADDRESS,
        allocation_flags,
        required_memory_flags: MEMORY_PROPERTY_DEVICE_LOCAL,
        preferred_memory_flags,
    }
}

/// The staging buffer every pool keeps for uploads: [`STAGING_BUFFER_SIZE`]
/// bytes, a transfer source, visible to the host.
pub fn staging_buffer_plan() -> (plan: BufferCreatePlan)
    ensures
        plan == spec_buffer_create_plan(STAGING_BUFFER_SIZE, BUFFER_USAGE_TRANSFER_SRC, BufferVisibility::HostVisible),
{
    buffer_create_plan(STAGING_BUFFER_SIZE, BUFFER_USAGE_TRANSFER_SRC, BufferVisibility::HostVisible)
}

/// One region of a buffer-to-buffer copy, in bytes.
#[derive(Clone, Copy, PartialEq, Eq, Structural, Debug)]
pub struct BufferCopy {
    pub src_offset: u64,
    pub dst_offset: u64,
    pub size: u64,
}

/// How data reaches a buffer: the host writes the bytes into the mapped
/// memory of `mapped_target`; when the destination lives on the device only,
/// `device_copy` is the buffer that the staging memory is copied to afterwards.
#[derive(Clone, Copy, PartialEq, Eq, Structural, Debug)]
pub struct TransferPlan {
    pub mapped_target: BufferReference,
    pub device_copy: Option<BufferReference>,
}

/// Generational slots of buffers together with the staging buffer that uploads
/// to device-only buffers pass through.
pub struct BuffersPool<H> {
    slots: SlotArena<AllocatedBuffer<H>>,
    staging_buffer_reference: BufferReference,
}

impl<H> BuffersPool<H> {
    pub closed spec fn wf(&self) -> bool {
        self.slots.wf()
    }

    pub closed spec fn capacity(&self) -> nat {
        self.slots.capacity()
    }

    /// Slots still free, in the order opposite to the one they are handed out in.
    pub closed spec fn free(&self) -> Seq<usize> {
        self.slots.free()
    }

    /// The buffer a reference resolves to.
    pub closed spec fn resolve(&self, r: BufferReference) -> Option<AllocatedBuffer<H>> {
        self.slots.lookup(r.index as int, r.generation as int)
    }

    /// The buffer stored in slot `i`, whatever its generation.
    pub closed spec fn slot_buffer(&self, i: int) -> Option<AllocatedBuffer<H>> {
        self.slots.item(i)
    }

    /// The generation of slot `i`: zero while the slot is empty, one once a
    /// buffer is stored in it.
    pub closed spec fn slot_generation(&self, i: int) -> nat {
        self.slots.generation(i)
    }

    pub closed spec fn staging(&self) -> BufferReference {
        self.staging_buffer_reference
    }

    /// A pool of [`BUFFER_SLOT_COUNT`] empty slots whose staging reference is
    /// still the default one.
    pub fn new() -> (pool: Self)
        ensures
            pool.wf(),
            pool.capacity() == BUFFER_SLOT_COUNT,
            pool.free().len() == BUFFER_SLOT_COUNT,
            forall|k: int| 0 <= k < BUFFER_SLOT_COUNT ==> #[trigger] pool.free()[k] == BUFFER_SLOT_COUNT - 1 - k,
            forall|i: int| 0 <= i < BUFFER_SLOT_COUNT ==> pool.slot_buffer(i) is None && pool.slot_generation(i) == 0,
            forall|q: BufferReference| #[trigger] pool.resolve(q) is None,
            pool.staging() == BufferReference::default_spec(),
    {
        BuffersPool {
            slots: SlotArena::new(BUFFER_SLOT_COUNT),
            staging_buffer_reference: BufferReference {
                index: 0,
                generation: 0,
                buffer_info: BufferInfo { device_address: 0, size: 0, buffer_visibility: BufferVisibility::Unspecified },
            },
        }
    }

    /// A pool holding its staging buffer: the buffer created from
    /// [`staging_buffer_plan`], whose device handles are `handle` and whose
    /// device address is `device_address`, is stored in slot 0 under
    /// generation one as a host-visible buffer of [`STAGING_BUFFER_SIZE`]
    /// bytes, and is the staging reference; the other slots are free, slot 1
    /// next.
    pub fn with_staging_buffer(handle: H, device_address: u64) -> (pool: Self)
        ensures
            pool.wf(),
            pool.capacity() == BUFFER_SLOT_COUNT,
            pool.free().len() == BUFFER_SLOT_COUNT - 1,
            forall|k: int| 0 <= k < BUFFER_SLOT_COUNT - 1 ==> #[trigger] pool.free()[k] == BUFFER_SLOT_COUNT - 1 - k,
            pool.free().last() == 1,
            pool.staging().index == 0,
            pool.staging().generation == 1,
            pool.staging().info() == (BufferInfo {
                device_address,
                size: STAGING_BUFFER_SIZE as u64,
                buffer_visibility: BufferVisibility::HostVisible,
            }),
            pool.resolve(pool.staging()) == Some(AllocatedBuffer { handle, buffer_info: pool.staging().info() }),
            pool.slot_buffer(0) == pool.resolve(pool.staging()),
            pool.slot_generation(0) == 1,
            forall|i: int| 1 <= i < BUFFER_SLOT_COUNT ==> pool.slot_buffer(i) is None && pool.slot_generation(i) == 0,
            forall|q: BufferReference| q.index != 0 ==> #[trigger] pool.resolve(q) is None,
    {
        let plan = staging_buffer_plan();
        let staging_buffer = AllocatedBuffer {
            handle,
            buffer_info: BufferInfo { device_address, size: plan.size, buffer_visibility: BufferVisibility::HostVisible },
        };
        let mut pool = Self::new();
        let staging = pool.insert_buffer(staging_buffer);
        pool.set_staging_buffer_reference(staging);
        assert(pool.free() =~= Seq::new((BUFFER_SLOT_COUNT - 1) as nat, |k: int| (BUFFER_SLOT_COUNT - 1 - k) as usize));
        pool
    }

    /// Number of slots still free.
    pub fn free_count(&self) -> (n: usize)
        ensures
            n == self.free().len(),
    {
        self.slots.free_count()
    }

    /// `after` is `before` with `item` stored in the slot at the end of the
    /// free list, which `r` names under generation one.
    pub open spec fn insert_step(before: Self, after: Self, item: AllocatedBuffer<H>, r: BufferReference) -> bool {
        &&& after.wf()
        &&& after.capacity() == before.capacity()
        &&& after.staging() == before.staging()
        &&& after.free() == before.free().drop_last()
        &&& r.index == before.free().last()
        &&& r.generation == 1
        &&& r.info() == item.buffer_info
        &&& after.resolve(r) == Some(item)
        &&& after.slot_generation(r.index as int) == 1
        &&& before.slot_generation(r.index as int) == 0
        &&& before.slot_buffer(r.index as int) is None
        &&& after.slot_buffer(r.index as int) == Some(item)
        &&& after.slot_generation(r.index as int) == before.slot_generation(r.index as int) + 1
        &&& forall|q: BufferReference| q.index == r.index && q.generation != r.generation ==> #[trigger] after.resolve(q) is None
        &&& forall|q: BufferReference| q.index != r.index ==> #[trigger] after.resolve(q) == before.resolve(q)
        &&& forall|i: int| 0 <= i < before.capacity() && i != r.index ==> #[trigger] after.slot_generation(i) == before.slot_generation(i)
            && after.slot_buffer(i) == before.slot_buffer(i)
    }

    /// A reference resolves to the buffer of its slot when its generation is
    /// the slot's, and to nothing otherwise; a slot of generation zero is
    /// empty, and no slot's generation goes past one.
    pub proof fn lemma_resolve(&self, q: BufferReference)
        requires
            self.wf(),
        ensures
            self.resolve(q) == (if q.index < self.capacity() && self.slot_generation(q.index as int) == q.generation {
                self.slot_buffer(q.index as int)
            } else {
                None
            }),
            q.index < self.capacity() ==> (self.slot_generation(q.index as int) == 0 <==> self.slot_buffer(q.index as int) is None),
            q.index < self.capacity() ==> self.slot_generation(q.index as int) <= 1,
    {
        if q.index < self.capacity() {
            self.slots.lemma_slot_state(q.index as int);
        }
    }

    /// Stores a created buffer in the next free slot and returns its reference.
    pub fn insert_buffer(&mut self, allocated_buffer: AllocatedBuffer<H>) -> (r: BufferReference)
        requires
            old(self).wf(),
            old(self).free().len() > 0,
        ensures
            Self::insert_step(*old(self), *final(self), allocated_buffer, r),
    {
        let buffer_info = allocated_buffer.buffer_info;
        let ghost item = allocated_buffer;
        let (index, generation) = self.slots.insert(allocated_buffer);
        BufferReference { index, generation, buffer_info }
    }

    /// The buffer a reference names, when its generation is current.
    pub fn get_buffer(&self, buffer_reference: BufferReference) -> (r: Option<&AllocatedBuffer<H>>)
        requires
            self.wf(),
            buffer_reference.index < self.capacity(),
        ensures
            match r {
                Some(b) => self.resolve(buffer_reference) == Some(*b),
                None => self.resolve(buffer_reference) is None,
            },
    {
        self.slots.get(buffer_reference.index, buffer_reference.generation)
    }

    pub fn get_staging_buffer_reference(&self) -> (r: BufferReference)
        ensures
            r == self.staging(),
    {
        self.staging_buffer_reference
    }

    /// Records which buffer uploads to device-only buffers are staged in.
    pub fn set_staging_buffer_reference(&mut self, staging_buffer_reference: BufferReference)
        ensures
            final(self).staging() == staging_buffer_reference,
            final(self).wf() == old(self).wf(),
            final(self).capacity() == old(self).capacity(),
            final(self).free() == old(self).free(),
            forall|q: BufferReference| #[trigger] final(self).resolve(q) == old(self).resolve(q),
            forall|i: int| #[trigger] final(self).slot_buffer(i) == old(self).slot_buffer(i)
                && final(self).slot_generation(i) == old(self).slot_generation(i),
    {
        self.staging_buffer_reference = staging_buffer_reference;
    }

    /// Empties the pool, handing back what every slot held, in slot order, so
    /// that the buffers can be destroyed.
    pub fn free_allocations(&mut self) -> (buffers: Vec<Option<AllocatedBuffer<H>>>)
        requires
            old(self).wf(),
        ensures
            final(self).wf(),
            final(self).capacity() == 0,
            final(self).staging() == old(self).staging(),
            buffers@ == Seq::new(old(self).capacity(), |i: int| old(self).slot_buffer(i)),
    {
        self.slots.drain_items()
    }

    /// How data reaches the buffer `buffer_reference` names: written
    /// into its own mapped memory when it is host-visible, or written into the
    /// staging buffer and copied to it when it lives on the device only.
    pub fn plan_transfer(&self, buffer_reference: BufferReference) -> (plan: TransferPlan)
        requires
            self.wf(),
            buffer_reference.index < self.capacity(),
            self.resolve(buffer_reference) is Some,
            self.resolve(buffer_reference).unwrap().buffer_info.buffer_visibility != BufferVisibility::Unspecified,
            self.resolve(buffer_reference).unwrap().buffer_info.buffer_visibility == BufferVisibility::DeviceOnly ==> {
                &&& self.staging().index < self.capacity()
                &&& self.resolve(self.staging()) is Some
            },
        ensures
            self.resolve(buffer_reference).unwrap().buffer_info.buffer_visibility == BufferVisibility::HostVisible ==> {
                &&& plan.mapped_target == buffer_reference
                &&& plan.device_copy is None
            },
            self.resolve(buffer_reference).unwrap().buffer_info.buffer_visibility == BufferVisibility::DeviceOnly ==> {
                &&& plan.mapped_target == self.staging()
                &&& plan.device_copy == Some(buffer_reference)
            },
    {
        let allocated_buffer = match self.get_buffer(buffer_reference) {
            Some(b) => b,
            None => {
                proof { assert(false); }
                return TransferPlan { mapped_target: buffer_reference, device_copy: None };
            },
        };
        match allocated_buffer.buffer_info.buffer_visibility {
            BufferVisibility::DeviceOnly => TransferPlan {
                mapped_target: self.staging_buffer_reference,
                device_copy: Some(buffer_reference),
            },
            _ => TransferPlan { mapped_target: buffer_reference, device_copy: None },
        }
    }
}

/// Two buffers stored one after the other get different slots, and after the
/// second insertion both references still resolve to their own buffer.
pub proof fn law_inserted_buffers_stay_apart<H>(
    p0: BuffersPool<H>,
    p1: BuffersPool<H>,
    p2: BuffersPool<H>,
    b1: AllocatedBuffer<H>,
    b2: AllocatedBuffer<H>,
    r1: BufferReference,
    r2: BufferReference,
)
    requires
        p0.wf(),
        BuffersPool::insert_step(p0, p1, b1, r1),
        BuffersPool::insert_step(p1, p2, b2, r2),
        p0.free().len() >= 2,
    ensures
        r1.index != r2.index,
        p2.resolve(r1) == Some(b1),
        p2.resolve(r2) == Some(b2),
{
    p0.lemma_free_distinct();
    let f = p0.free();
    assert(r2.index == f.drop_last()[f.len() - 2]);
    assert(r2.index == f[f.len() - 2]);
    assert(r1.index == f[f.len() - 1]);
}

impl<H> BuffersPool<H> {
    proof fn lemma_free_distinct(&self)
        requires
            self.wf(),
        ensures
            self.free().no_duplicates(),
    {
        self.slots.lemma_free_distinct();
    }
}

impl BufferReference {
    pub open spec fn default_spec() -> BufferReference {
        BufferReference { index: 0, generation: 0, buffer_info: BufferInfo { device_address: 0, size: 0, buffer_visibility: BufferVisibility::Unspecified } }
    }
}

/// The single region that copies `size` bytes from the start of the staging
/// buffer to the start of the destination.
pub fn whole_copy_region(size: usize) -> (region: BufferCopy)
    ensures
        region.src_offset == 0,
        region.dst_offset == 0,
        region.size == size as u64,
{
    BufferCopy { src_offset: 0, dst_offset: 0, size: size as u64 }
}

} // verus!
