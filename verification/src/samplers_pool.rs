use vstd::prelude::*;

use crate::flags::{
    COMPARE_OP_ALWAYS, COMPARE_OP_NEVER, FILTER_LINEAR, FILTER_NEAREST, SAMPLER_MIPMAP_MODE_LINEAR,
    SAMPLER_MIPMAP_MODE_NEAREST,
};
use crate::slots::SlotArena;

verus! {

/// A reference to a sampler of a [`SamplersPool`].
#[derive(Clone, Copy, PartialEq, Eq, Structural, Debug)]
pub struct SamplerReference {
    pub index: u32,
    pub generation: u32,
}

impl SamplerReference {
    pub open spec fn default_spec() -> SamplerReference {
        SamplerReference { index: 0, generation: 0 }
    }
}

impl Default for SamplerReference {
    fn default() -> (r: Self)
        ensures
            r == SamplerReference::default_spec(),
    {
        SamplerReference { index: 0, generation: 0 }
    }
}

/// Number of sampler slots.
pub const SAMPLER_SLOT_COUNT: usize = 16usize;

/// The settings of a sampler to create.  `unclamped_max_lod` stands for a
/// maximal level of detail of `VK_LOD_CLAMP_NONE`; otherwise it is zero.
#[derive(Clone, Copy, PartialEq, Eq, Structural, Debug)]
pub struct SamplerCreatePlan {
    pub mag_filter: u32,
    pub min_filter: u32,
    pub mipmap_mode: u32,
    pub address_mode_u: u32,
    pub address_mode_v: u32,
    pub address_mode_w: u32,
    pub compare_op: u32,
    pub unclamped_max_lod: bool,
}

pub open spec fn spec_sampler_create_plan(filter: u32, wrap: u32, mip_map_enabled: bool) -> SamplerCreatePlan {
    SamplerCreatePlan {
        mag_filter: filter,
        min_filter: filter,
        mipmap_mode: if mip_map_enabled && filter == FILTER_LINEAR {
            SAMPLER_MIPMAP_MODE_LINEAR
        } else {
            SAMPLER_MIPMAP_MODE_NEAREST
        },
        address_mode_u: wrap,
        address_mode_v: wrap,
        address_mode_w: wrap,
        compare_op: if mip_map_enabled { COMPARE_OP_ALWAYS } else { COMPARE_OP_NEVER },
        unclamped_max_lod: mip_map_enabled,
    }
}

/// A sampler filters as asked and wraps as asked on every axis: its
/// magnification and minification filters are the requested filter and its
/// three address modes the requested wrap, whatever the mip-mapping; it
/// blends between mip levels exactly when mip-mapping a linear filter.
pub proof fn law_sampler_follows_its_settings(filter: u32, wrap: u32, mip_map_enabled: bool)
    ensures
        spec_sampler_create_plan(filter, wrap, mip_map_enabled).mag_filter == filter,
        spec_sampler_create_plan(filter, wrap, mip_map_enabled).min_filter == filter,
        spec_sampler_create_plan(filter, wrap, mip_map_enabled).address_mode_u == wrap,
        spec_sampler_create_plan(filter, wrap, mip_map_enabled).address_mode_v == wrap,
        spec_sampler_create_plan(filter, wrap, mip_map_enabled).address_mode_w == wrap,
        spec_sampler_create_plan(filter, wrap, mip_map_enabled).mipmap_mode == SAMPLER_MIPMAP_MODE_LINEAR
            <==> (mip_map_enabled && filter == FILTER_LINEAR),
        spec_sampler_create_plan(filter, wrap, true).mag_filter == spec_sampler_create_plan(filter, wrap, false).mag_filter,
{
}

/// The settings of a sampler filtering with `filter` and wrapping with
/// `wrap`: with mip-mapping, the mip-map mode follows the filter, comparison
/// always passes and the level of detail is unclamped; without it, nearest
/// mip-map mode, a never-passing comparison and a zero maximal level of
/// detail. Mip-mapping is only offered for nearest and linear filtering.
pub fn sampler_create_plan(filter: u32, wrap: u32, mip_map_enabled: bool) -> (plan: SamplerCreatePlan)
    requires
        mip_map_enabled ==> (filter == FILTER_NEAREST || filter == FILTER_LINEAR),
    ensures
        plan == spec_sampler_create_plan(filter, wrap, mip_map_enabled),
        plan.mag_filter == filter,
        plan.min_filter == filter,
        plan.address_mode_u == wrap && plan.address_mode_v == wrap && plan.address_mode_w == wrap,
        plan.mipmap_mode == SAMPLER_MIPMAP_MODE_LINEAR <==> (mip_map_enabled && filter == FILTER_LINEAR),
        plan.unclamped_max_lod == mip_map_enabled,
{
    let mipmap_mode = if mip_map_enabled {
        if filter == FILTER_LINEAR {
            SAMPLER_MIPMAP_MODE_LINEAR
        } else {
            SAMPLER_MIPMAP_MODE_NEAREST
        }
    } else {
        SAMPLER_MIPMAP_MODE_NEAREST
    };
    let compare_op = if mip_map_enabled {
        COMPARE_OP_ALWAYS
    } else {
        COMPARE_OP_NEVER
    };
    SamplerCreatePlan {
        mag_filter: filter,
        min_filter: filter,
        mipmap_mode,
        address_mode_u: wrap,
        address_mode_v: wrap,
        address_mode_w: wrap,
        compare_op,
        unclamped_max_lod: mip_map_enabled,
    }
}

/// Generational slots of samplers.
pub struct SamplersPool<S> {
    slots: SlotArena<S>,
}

impl<S: Copy> SamplersPool<S> {
    pub closed spec fn wf(&self) -> bool {
        self.slots.wf() && self.slots.capacity() <= SAMPLER_SLOT_COUNT
    }

    pub closed spec fn capacity(&self) -> nat {
        self.slots.capacity()
    }

    pub closed spec fn free(&self) -> Seq<usize> {
        self.slots.free()
    }

    /// The sampler a reference resolves to.
    pub closed spec fn resolve(&self, r: SamplerReference) -> Option<S> {
        self.slots.lookup(r.index as int, r.generation as int)
    }

    pub closed spec fn slot_sampler(&self, i: int) -> Option<S> {
        self.slots.item(i)
    }

    /// The generation of slot `i`: zero while the slot is empty, one once a
    /// sampler is stored in it.
    pub closed spec fn slot_generation(&self, i: int) -> nat {
        self.slots.generation(i)
    }

    /// A reference resolves to the sampler of its slot when its generation is
    /// the slot's, and to nothing otherwise; a slot of generation zero is
    /// empty, and no slot's generation goes past one.
    pub proof fn lemma_resolve(&self, q: SamplerReference)
        requires
            self.wf(),
        ensures
            self.resolve(q) == (if q.index < self.capacity() && self.slot_generation(q.index as int) == q.generation {
                self.slot_sampler(q.index as int)
            } else {
                None
            }),
            q.index < self.capacity() ==> (self.slot_generation(q.index as int) == 0 <==> self.slot_sampler(q.index as int) is None),
            q.index < self.capacity() ==> self.slot_generation(q.index as int) <= 1,
    {
        if q.index < self.capacity() {
            self.slots.lemma_slot_state(q.index as int);
        }
    }

    /// [`SAMPLER_SLOT_COUNT`] empty slots, handed out in increasing index order.
    pub fn new() -> (pool: Self)
        ensures
            pool.wf(),
            pool.capacity() == SAMPLER_SLOT_COUNT,
            pool.free().len() == SAMPLER_SLOT_COUNT,
            forall|k: int| 0 <= k < SAMPLER_SLOT_COUNT ==> #[trigger] pool.free()[k] == SAMPLER_SLOT_COUNT - 1 - k,
            forall|i: int| 0 <= i < SAMPLER_SLOT_COUNT ==> pool.slot_sampler(i) is None && pool.slot_generation(i) == 0,
            forall|q: SamplerReference| #[trigger] pool.resolve(q) is None,
    {
        SamplersPool { slots: SlotArena::new(SAMPLER_SLOT_COUNT) }
    }

    /// Number of slots still free.
    pub fn free_count(&self) -> (n: usize)
        ensures
            n == self.free().len(),
    {
        self.slots.free_count()
    }

    /// `after` is `before` with `sampler` stored in the slot at the end of the
    /// free list, which `r` names under generation one.
    pub open spec fn insert_step(before: Self, after: Self, sampler: S, r: SamplerReference) -> bool {
        &&& after.wf()
        &&& after.capacity() == before.capacity()
        &&& after.free() == before.free().drop_last()
        &&& r.index == before.free().last()
        &&& r.generation == 1
        &&& after.resolve(r) == Some(sampler)
        &&& after.slot_generation(r.index as int) == 1
        &&& before.slot_generation(r.index as int) == 0
        &&& before.slot_sampler(r.index as int) is None
        &&& after.slot_sampler(r.index as int) == Some(sampler)
        &&& after.slot_generation(r.index as int) == before.slot_generation(r.index as int) + 1
        &&& forall|q: SamplerReference| q.index == r.index && q.generation != r.generation ==> #[trigger] after.resolve(q) is None
        &&& forall|q: SamplerReference| q.index != r.index ==> #[trigger] after.resolve(q) == before.resolve(q)
        &&& forall|i: int| 0 <= i < before.capacity() && i != r.index ==> #[trigger] after.slot_generation(i) == before.slot_generation(i)
            && after.slot_sampler(i) == before.slot_sampler(i)
    }

    /// Stores a created sampler in the next free slot.
    pub fn insert_sampler(&mut self, sampler: S) -> (r: SamplerReference)
        requires
            old(self).wf(),
            old(self).free().len() > 0,
        ensures
            Self::insert_step(*old(self), *final(self), sampler, r),
    {
        proof { self.slots.lemma_free_distinct(); }
        let (index, generation) = self.slots.insert(sampler);
        SamplerReference { index: index as u32, generation: generation as u32 }
    }

    /// The sampler a reference names, when its generation is current.
    pub fn get_sampler(&self, sampler_reference: SamplerReference) -> (r: Option<S>)
        requires
            self.wf(),
            sampler_reference.index < self.capacity(),
        ensures
            r == self.resolve(sampler_reference),
    {
        match self.slots.get(sampler_reference.index as usize, sampler_reference.generation as usize) {
            Some(sampler) => Some(*sampler),
            None => None,
        }
    }

    /// Empties the pool, handing back what every slot held, in slot order, so
    /// that the samplers can be destroyed.
    pub fn destroy_samplers(&mut self) -> (samplers: Vec<Option<S>>)
        requires
            old(self).wf(),
        ensures
            final(self).wf(),
            final(self).capacity() == 0,
            samplers@ == Seq::new(old(self).capacity(), |i: int| old(self).slot_sampler(i)),
    {
        self.slots.drain_items()
    }
}

/// Two samplers stored one after the other get different slots, and after the
/// second insertion both references still resolve to their own sampler.
pub proof fn law_inserted_samplers_stay_apart<S: Copy>(
    p0: SamplersPool<S>,
    p1: SamplersPool<S>,
    p2: SamplersPool<S>,
    s1: S,
    s2: S,
    r1: SamplerReference,
    r2: SamplerReference,
)
    requires
        p0.wf(),
        SamplersPool::insert_step(p0, p1, s1, r1),
        SamplersPool::insert_step(p1, p2, s2, r2),
        p0.free().len() >= 2,
    ensures
        r1.index != r2.index,
        p2.resolve(r1) == Some(s1),
        p2.resolve(r2) == Some(s2),
{
    p0.slots.lemma_free_distinct();
    let f = p0.free();
    assert(r2.index == f.drop_last()[f.len() - 2]);
    assert(r2.index == f[f.len() - 2]);
    assert(r1.index == f[f.len() - 1]);
}

} // verus!
