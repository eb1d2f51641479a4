use vstd::prelude::*;

use crate::buffers_pool::BufferReference;

verus! {

/// The buffers that make up one uploaded mesh, and the device address of the
/// mesh object that points at them.
#[derive(Clone, Copy, PartialEq, Eq, Structural, Debug)]
pub struct MeshBuffer {
    pub mesh_object_device_address: u64,
    pub vertex_buffer_reference: BufferReference,
    pub vertex_indices_buffer_reference: BufferReference,
    pub meshlets_buffer_reference: BufferReference,
    pub local_indices_buffer_reference: BufferReference,
    pub meshlets_count: usize,
}

impl MeshBuffer {
    pub open spec fn default_spec() -> MeshBuffer {
        MeshBuffer {
            mesh_object_device_address: 0,
            vertex_buffer_reference: BufferReference::default_spec(),
            vertex_indices_buffer_reference: BufferReference::default_spec(),
            meshlets_buffer_reference: BufferReference::default_spec(),
            local_indices_buffer_reference: BufferReference::default_spec(),
            meshlets_count: 0,
        }
    }
}

impl Default for MeshBuffer {
    fn default() -> (m: Self)
        ensures
            m == MeshBuffer::default_spec(),
    {
        MeshBuffer {
            mesh_object_device_address: 0,
            vertex_buffer_reference: BufferReference::default(),
            vertex_indices_buffer_reference: BufferReference::default(),
            meshlets_buffer_reference: BufferReference::default(),
            local_indices_buffer_reference: BufferReference::default(),
            meshlets_count: 0,
        }
    }
}

/// A reference to a slot of a [`MeshBuffersPool`].
#[derive(Clone, Copy, PartialEq, Eq, Structural, Debug)]
pub struct MeshBufferReference {
    pub index: u32,
}

/// Pre-allocated mesh buffer slots handed out from a free list.
pub struct MeshBuffersPool {
    slots: Vec<MeshBuffer>,
    free_indices: Vec<u32>,
}

impl MeshBuffersPool {
    /// The mesh buffer held by each slot.
    pub closed spec fn slots(&self) -> Seq<MeshBuffer> {
        self.slots@
    }

    /// The free list; the next insertion takes its last element.
    pub closed spec fn free(&self) -> Seq<u32> {
        self.free_indices@
    }

    /// Every free index names a slot, and no index is free twice.
    pub closed spec fn wf(&self) -> bool {
        &&& forall|k: int| 0 <= k < self.free_indices@.len() ==> #[trigger] self.free_indices@[k] < self.slots@.len()
        &&& self.free_indices@.no_duplicates()
    }

    /// `pre_allocated_count` default slots, handed out in increasing index
    /// order.
    pub fn new(pre_allocated_count: u32) -> (pool: Self)
        ensures
            pool.wf(),
            pool.slots() == Seq::new(pre_allocated_count as nat, |i: int| MeshBuffer::default_spec()),
            pool.free() == Seq::new(pre_allocated_count as nat, |k: int| (pre_allocated_count - 1 - k) as u32),
    {
        let mut slots: Vec<MeshBuffer> = Vec::new();
        let mut i: u32 = 0;
        while i < pre_allocated_count
            invariant
                i <= pre_allocated_count,
                slots@ == Seq::new(i as nat, |j: int| MeshBuffer::default_spec()),
            decreases pre_allocated_count - i,
        {
            slots.push(MeshBuffer::default());
            i = i + 1;
        }
        let mut free_indices: Vec<u32> = Vec::new();
        let mut k: u32 = 0;
        while k < pre_allocated_count
            invariant
                k <= pre_allocated_count,
                free_indices@ == Seq::new(k as nat, |j: int| (pre_allocated_count - 1 - j) as u32),
            decreases pre_allocated_count - k,
        {
            free_indices.push(pre_allocated_count - 1 - k);
            k = k + 1;
        }
        let pool = MeshBuffersPool { slots, free_indices };
        assert forall|a: int, b: int|
            0 <= a < pool.free_indices@.len() && 0 <= b < pool.free_indices@.len() && a != b
            implies pool.free_indices@[a] != pool.free_indices@[b] by {}
        pool
    }

    /// Number of slots still free.
    pub fn free_count(&self) -> (n: usize)
        ensures
            n == self.free().len(),
    {
        self.free_indices.len()
    }

    /// `after` is `before` with `mesh_buffer` stored in the slot at the end of
    /// the free list, which `r` names.
    pub open spec fn insert_step(before: Self, after: Self, mesh_buffer: MeshBuffer, r: MeshBufferReference) -> bool {
        &&& after.wf()
        &&& r.index == before.free().last()
        &&& after.free() == before.free().drop_last()
        &&& after.slots() == before.slots().update(r.index as int, mesh_buffer)
    }

    /// Stores `mesh_buffer` in the slot at the end of the free list.
    pub fn insert_mesh_buffer(&mut self, mesh_buffer: MeshBuffer) -> (r: MeshBufferReference)
        requires
            old(self).wf(),
            old(self).free().len() > 0,
        ensures
            Self::insert_step(*old(self), *final(self), mesh_buffer, r),
    {
        let ghost old_free = self.free_indices@;
        let free_index = match self.free_indices.pop() {
            Some(index) => index,
            None => {
                proof { assert(false); }
                0
            },
        };
        assert(old_free[old_free.len() - 1] == free_index);
        self.slots[free_index as usize] = mesh_buffer;
        assert forall|k: int| 0 <= k < self.free_indices@.len() implies #[trigger] self.free_indices@[k] < self.slots@.len() by {
            assert(self.free_indices@[k] == old_free[k]);
        }
        assert forall|a: int, b: int|
            0 <= a < self.free_indices@.len() && 0 <= b < self.free_indices@.len() && a != b
            implies self.free_indices@[a] != self.free_indices@[b] by {
            assert(self.free_indices@[a] == old_free[a]);
            assert(self.free_indices@[b] == old_free[b]);
        }
        MeshBufferReference { index: free_index }
    }

    /// The mesh buffer in the slot a reference names.
    pub fn get_mesh_buffer(&self, mesh_buffer_reference: MeshBufferReference) -> (m: &MeshBuffer)
        requires
            mesh_buffer_reference.index < self.slots().len(),
        ensures
            *m == self.slots()[mesh_buffer_reference.index as int],
    {
        &self.slots[mesh_buffer_reference.index as usize]
    }

    /// A mutable borrow of the mesh buffer in the slot a reference names.
    pub fn get_mut_mesh_buffer(&mut self, mesh_buffer_reference: MeshBufferReference) -> (m: &mut MeshBuffer)
        requires
            mesh_buffer_reference.index < old(self).slots().len(),
        ensures
            *m == old(self).slots()[mesh_buffer_reference.index as int],
            final(self).slots() == old(self).slots().update(mesh_buffer_reference.index as int, *final(m)),
            final(self).free() == old(self).free(),
            old(self).wf() ==> final(self).wf(),
    {
        &mut self.slots[mesh_buffer_reference.index as usize]
    }
}

/// Two mesh buffers stored one after the other get different slots, and after
/// the second insertion each reference still reads back its own mesh buffer.
pub proof fn law_inserted_mesh_buffers_stay_apart(
    p0: MeshBuffersPool,
    p1: MeshBuffersPool,
    p2: MeshBuffersPool,
    m1: MeshBuffer,
    m2: MeshBuffer,
    r1: MeshBufferReference,
    r2: MeshBufferReference,
)
    requires
        p0.wf(),
        MeshBuffersPool::insert_step(p0, p1, m1, r1),
        MeshBuffersPool::insert_step(p1, p2, m2, r2),
        p0.free().len() >= 2,
    ensures
        r1.index != r2.index,
        r1.index < p2.slots().len(),
        r2.index < p2.slots().len(),
        p2.slots()[r1.index as int] == m1,
        p2.slots()[r2.index as int] == m2,
{
    let f = p0.free();
    assert(r2.index == f.drop_last()[f.len() - 2]);
    assert(r2.index == f[f.len() - 2]);
    assert(r1.index == f[f.len() - 1]);
    assert(f[f.len() - 1] < p0.slots().len());
    assert(f[f.len() - 2] < p0.slots().len());
}

} // verus!
