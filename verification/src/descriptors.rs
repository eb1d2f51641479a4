use vstd::prelude::*;
use std::collections::HashMap;

use crate::flags::{
    DESCRIPTOR_TYPE_SAMPLED_IMAGE, DESCRIPTOR_TYPE_SAMPLER, DESCRIPTOR_TYPE_STORAGE_IMAGE,
};

verus! {

broadcast use vstd::std_specs::hash::group_hash_axioms;

/// One binding of a descriptor set layout.
#[derive(Clone, Copy, PartialEq, Eq, Structural, Debug)]
pub struct LayoutBinding {
    pub binding: u32,
    pub descriptor_type: u32,
    pub descriptor_count: u32,
    pub stage_flags: u32,
}

/// Collects single-descriptor bindings for a descriptor set layout.
pub struct DescriptorLayoutBuilder {
    bindings: Vec<LayoutBinding>,
}

impl DescriptorLayoutBuilder {
    pub closed spec fn bindings(&self) -> Seq<LayoutBinding> {
        self.bindings@
    }

    pub fn new() -> (builder: Self)
        ensures
            builder.bindings().len() == 0,
    {
        DescriptorLayoutBuilder { bindings: Vec::new() }
    }

    /// Adds binding number `binding` holding one descriptor of `descriptor_type`.
    pub fn add_binding(&mut self, binding: u32, descriptor_type: u32)
        ensures
            final(self).bindings() == old(self).bindings().push(LayoutBinding {
                binding,
                descriptor_type,
                descriptor_count: 1,
                stage_flags: 0,
            }),
    {
        self.bindings.push(LayoutBinding { binding, descriptor_type, descriptor_count: 1, stage_flags: 0 });
    }

    pub fn clear(&mut self)
        ensures
            final(self).bindings().len() == 0,
    {
        self.bindings.clear();
    }

    /// Hands out the bindings to create the layout from, each visible to
    /// `shader_stages` as well, and empties the builder.
    pub fn build(&mut self, shader_stages: u32) -> (bindings: Vec<LayoutBinding>)
        ensures
            final(self).bindings().len() == 0,
            bindings@.len() == old(self).bindings().len(),
            forall|i: int| 0 <= i < bindings@.len() ==> #[trigger] bindings@[i] == (LayoutBinding {
                stage_flags: old(self).bindings()[i].stage_flags | shader_stages,
                ..old(self).bindings()[i]
            }),
    {
        let mut bindings: Vec<LayoutBinding> = Vec::new();
        let mut i: usize = 0;
        while i < self.bindings.len()
            invariant
                i <= self.bindings@.len(),
                self.bindings@ == old(self).bindings@,
                bindings@.len() == i,
                forall|j: int| 0 <= j < i ==> #[trigger] bindings@[j] == (LayoutBinding {
                    stage_flags: self.bindings@[j].stage_flags | shader_stages,
                    ..self.bindings@[j]
                }),
            decreases self.bindings@.len() - i,
        {
            let binding = self.bindings[i];
            bindings.push(LayoutBinding { stage_flags: binding.stage_flags | shader_stages, ..binding });
            i = i + 1;
        }
        self.clear();
        bindings
    }
}

/// A binding of a descriptor set built on a descriptor buffer, with its
/// binding flags.
#[derive(Clone, Copy, PartialEq, Eq, Structural, Debug)]
pub struct DescriptorSetLayoutBindingInfo {
    pub binding: LayoutBinding,
    pub flags: u32,
}

/// Collects the bindings of a descriptor set laid out in a descriptor buffer;
/// bindings are numbered in the order they are added.
pub struct DescriptorSetBuilder {
    bindings_infos: Vec<DescriptorSetLayoutBindingInfo>,
}

/// What a descriptor set layout is created from: the bindings, visible to
/// the requested shader stages, and the flags of each binding.
pub struct LayoutCreatePlan {
    pub bindings: Vec<LayoutBinding>,
    pub bindings_flags: Vec<u32>,
}

impl DescriptorSetBuilder {
    pub closed spec fn bindings_infos(&self) -> Seq<DescriptorSetLayoutBindingInfo> {
        self.bindings_infos@
    }

    pub fn new() -> (builder: Self)
        ensures
            builder.bindings_infos().len() == 0,
    {
        DescriptorSetBuilder { bindings_infos: Vec::new() }
    }

    /// Adds the next binding, numbered after the bindings already added.
    pub fn add_binding(&mut self, descriptor_type: u32, descriptor_count: u32, binding_flags: u32)
        ensures
            final(self).bindings_infos() == old(self).bindings_infos().push(DescriptorSetLayoutBindingInfo {
                binding: LayoutBinding {
                    binding: old(self).bindings_infos().len() as u32,
                    descriptor_type,
                    descriptor_count,
                    stage_flags: 0,
                },
                flags: binding_flags,
            }),
    {
        let next_binding_index = self.bindings_infos.len();
        let binding = LayoutBinding {
            binding: next_binding_index as u32,
            descriptor_type,
            descriptor_count,
            stage_flags: 0,
        };
        self.bindings_infos.push(DescriptorSetLayoutBindingInfo { binding, flags: binding_flags });
    }

    pub fn clear(&mut self)
        ensures
            final(self).bindings_infos().len() == 0,
    {
        self.bindings_infos.clear();
    }

    /// The bindings of the layout, each visible to `shader_stages` as well,
    /// and their flags in the same order.
    pub fn layout_create_plan(&self, shader_stages: u32) -> (plan: LayoutCreatePlan)
        ensures
            plan.bindings@.len() == self.bindings_infos().len(),
            plan.bindings_flags@.len() == self.bindings_infos().len(),
            forall|i: int| 0 <= i < plan.bindings@.len() ==> {
                &&& #[trigger] plan.bindings@[i] == (LayoutBinding {
                    stage_flags: self.bindings_infos()[i].binding.stage_flags | shader_stages,
                    ..self.bindings_infos()[i].binding
                })
                &&& plan.bindings_flags@[i] == self.bindings_infos()[i].flags
            },
    {
        let mut bindings: Vec<LayoutBinding> = Vec::new();
        let mut bindings_flags: Vec<u32> = Vec::new();
        let mut i: usize = 0;
        while i < self.bindings_infos.len()
            invariant
                i <= self.bindings_infos@.len(),
                bindings@.len() == i,
                bindings_flags@.len() == i,
                forall|j: int| 0 <= j < i ==> {
                    &&& #[trigger] bindings@[j] == (LayoutBinding {
                        stage_flags: self.bindings_infos@[j].binding.stage_flags | shader_stages,
                        ..self.bindings_infos@[j].binding
                    })
                    &&& bindings_flags@[j] == self.bindings_infos@[j].flags
                },
            decreases self.bindings_infos@.len() - i,
        {
            let info = self.bindings_infos[i];
            bindings_flags.push(info.flags);
            bindings.push(LayoutBinding { stage_flags: info.binding.stage_flags | shader_stages, ..info.binding });
            i = i + 1;
        }
        LayoutCreatePlan { bindings, bindings_flags }
    }

    /// The descriptor type of each binding, in binding order.
    pub fn descriptor_types(&self) -> (types: Vec<u32>)
        ensures
            types@.len() == self.bindings_infos().len(),
            forall|i: int| 0 <= i < types@.len() ==> #[trigger] types@[i] == self.bindings_infos()[i].binding.descriptor_type,
    {
        let mut types: Vec<u32> = Vec::new();
        let mut i: usize = 0;
        while i < self.bindings_infos.len()
            invariant
                i <= self.bindings_infos@.len(),
                types@.len() == i,
                forall|j: int| 0 <= j < i ==> #[trigger] types@[j] == self.bindings_infos@[j].binding.descriptor_type,
            decreases self.bindings_infos@.len() - i,
        {
            types.push(self.bindings_infos[i].binding.descriptor_type);
            i = i + 1;
        }
        types
    }
}

/// Where the descriptors of one binding start in the descriptor buffer.
#[derive(Clone, Copy, PartialEq, Eq, Structural, Debug)]
pub struct BindingInfo {
    pub binding_offset: u64,
}

/// The bindings by descriptor type after the first `n` bindings: a later
/// binding of a type replaces an earlier one.
pub open spec fn bindings_map(types: Seq<u32>, offsets: Seq<u64>, n: int) -> Map<u32, BindingInfo>
    decreases n,
{
    if n <= 0 {
        Map::empty()
    } else {
        bindings_map(types, offsets, n - 1).insert(types[n - 1], BindingInfo { binding_offset: offsets[n - 1] })
    }
}

/// Indexes the bindings by their descriptor type, given the offset the device
/// reports for each binding.
pub fn bindings_by_type(descriptor_types: &Vec<u32>, binding_offsets: &Vec<u64>) -> (m: HashMap<u32, BindingInfo>)
    requires
        descriptor_types@.len() == binding_offsets@.len(),
    ensures
        m@ == bindings_map(descriptor_types@, binding_offsets@, descriptor_types@.len() as int),
{
    let mut m: HashMap<u32, BindingInfo> = HashMap::new();
    let mut i: usize = 0;
    while i < descriptor_types.len()
        invariant
            descriptor_types@.len() == binding_offsets@.len(),
            i <= descriptor_types@.len(),
            m@ == bindings_map(descriptor_types@, binding_offsets@, i as int),
        decreases descriptor_types@.len() - i,
    {
        m.insert(descriptor_types[i], BindingInfo { binding_offset: binding_offsets[i] });
        i = i + 1;
    }
    m
}

/// `value` rounded up to a multiple of `alignment`, which is meant to be a
/// power of two.
pub open spec fn spec_aligned_size(value: u64, alignment: u64) -> u64 {
    ((value + alignment - 1) as u64) & !((alignment - 1) as u64)
}

/// Rounds the size of a descriptor buffer up to the alignment of its offsets.
pub fn get_descriptor_buffer_aligned_size(value: u64, alignment: u64) -> (size: u64)
    requires
        alignment >= 1,
        value + alignment - 1 <= u64::MAX,
    ensures
        size == spec_aligned_size(value, alignment),
{
    (value + (alignment - 1)) & !(alignment - 1)
}

/// For a power-of-two alignment, the aligned size is the least multiple of the
/// alignment that is at least the size.
pub proof fn law_aligned_size_is_least_multiple(value: u64, alignment: u64, k: nat)
    requires
        k < 64,
        alignment == vstd::arithmetic::power2::pow2(k),
        value + alignment - 1 <= u64::MAX,
    ensures
        spec_aligned_size(value, alignment) % alignment == 0,
        value <= spec_aligned_size(value, alignment),
        spec_aligned_size(value, alignment) < value + alignment,
{
    vstd::arithmetic::power2::lemma_pow2_pos(k);
    let y = (value + alignment - 1) as u64;
    let m = (alignment - 1) as u64;
    let r = spec_aligned_size(value, alignment);
    assert(r == y & !m);
    assert(y & !m == (y - (y & m)) as u64 && (y & m) <= y) by (bit_vector);
    assert(vstd::bits::low_bits_mask(k) == vstd::arithmetic::power2::pow2(k) - 1);
    vstd::bits::lemma_u64_low_bits_mask_is_mod(y, k);
    assert((y & m) == y % alignment);
    vstd::arithmetic::div_mod::lemma_fundamental_div_mod(y as int, alignment as int);
    let q = y as int / alignment as int;
    assert(r as int == alignment * q);
    vstd::arithmetic::div_mod::lemma_mod_multiples_basic(q, alignment as int);
    assert((q * alignment) % (alignment as int) == 0);
    assert(alignment * q == q * alignment) by (nonlinear_arith);
}

/// The sizes the device reports for the descriptors the renderer writes.
#[derive(Clone, Copy, PartialEq, Eq, Structural, Debug)]
pub struct DescriptorsSizes {
    pub sampled_image_descriptor_size: usize,
    pub sampler_descriptor_size: usize,
    pub storage_image_descriptor_size: usize,
}

/// A storage image written at slot `index` of its binding.
#[derive(Clone, Copy)]
pub struct DescriptorStorageImage<V> {
    pub image_view: V,
    pub index: u32,
}

/// A sampled image written at slot `index` of its binding.
#[derive(Clone, Copy)]
pub struct DescriptorSampledImage<V> {
    pub image_view: V,
    pub index: u32,
}

/// A sampler written at slot `index` of its binding.
#[derive(Clone, Copy)]
pub struct DescriptorSampler<S> {
    pub sampler: S,
    pub index: u32,
}

/// A descriptor to write into the descriptor buffer.
pub enum DescriptorKind<V, S> {
    StorageImage(DescriptorStorageImage<V>),
    SampledImage(DescriptorSampledImage<V>),
    Sampler(DescriptorSampler<S>),
}

pub open spec fn spec_descriptor_type<V, S>(kind: DescriptorKind<V, S>) -> u32 {
    match kind {
        DescriptorKind::StorageImage(_) => DESCRIPTOR_TYPE_STORAGE_IMAGE,
        DescriptorKind::SampledImage(_) => DESCRIPTOR_TYPE_SAMPLED_IMAGE,
        DescriptorKind::Sampler(_) => DESCRIPTOR_TYPE_SAMPLER,
    }
}

pub open spec fn spec_slot_index<V, S>(kind: DescriptorKind<V, S>) -> u32 {
    match kind {
        DescriptorKind::StorageImage(d) => d.index,
        DescriptorKind::SampledImage(d) => d.index,
        DescriptorKind::Sampler(d) => d.index,
    }
}

impl<V, S> DescriptorKind<V, S> {
    /// The descriptor type the descriptor is written as.
    pub fn get_descriptor_type(&self) -> (t: u32)
        ensures
            t == spec_descriptor_type(*self),
    {
        match self {
            DescriptorKind::StorageImage(_) => DESCRIPTOR_TYPE_STORAGE_IMAGE,
            DescriptorKind::SampledImage(_) => DESCRIPTOR_TYPE_SAMPLED_IMAGE,
            DescriptorKind::Sampler(_) => DESCRIPTOR_TYPE_SAMPLER,
        }
    }

    /// The slot of its binding the descriptor is written at.
    pub fn slot_index(&self) -> (i: u32)
        ensures
            i == spec_slot_index(*self),
    {
        match self {
            DescriptorKind::StorageImage(d) => d.index,
            DescriptorKind::SampledImage(d) => d.index,
            DescriptorKind::Sampler(d) => d.index,
        }
    }
}

pub open spec fn spec_descriptor_size(sizes: DescriptorsSizes, descriptor_type: u32) -> usize {
    if descriptor_type == DESCRIPTOR_TYPE_SAMPLED_IMAGE {
        sizes.sampled_image_descriptor_size
    } else if descriptor_type == DESCRIPTOR_TYPE_STORAGE_IMAGE {
        sizes.storage_image_descriptor_size
    } else {
        sizes.sampler_descriptor_size
    }
}

/// Where a descriptor is written in the descriptor buffer, and how many bytes.
#[derive(Clone, Copy, PartialEq, Eq, Structural, Debug)]
pub struct DescriptorWrite {
    pub descriptor_type: u32,
    pub offset: u64,
    pub size: usize,
}

/// The layout of a descriptor set kept in a descriptor buffer, with the
/// device objects that hold it: the buffer `B`, the layout `L` and the
/// pipeline layout `P`.
pub struct DescriptorSetHandle<B, L, P> {
    pub buffer: B,
    pub descriptor_set_layout: L,
    pub descriptor_set_layout_size: u64,
    pub bindings_infos: HashMap<u32, BindingInfo>,
    pub pipeline_layout: P,
    pub descriptors_sizes: DescriptorsSizes,
}

impl<B, L, P> DescriptorSetHandle<B, L, P> {
    /// Where a descriptor goes: the offset of its type's binding plus its slot
    /// times the size of one descriptor of that type.
    pub fn update_binding<V, S>(&self, descriptor_kind: &DescriptorKind<V, S>) -> (w: DescriptorWrite)
        requires
            self.bindings_infos@.contains_key(spec_descriptor_type(*descriptor_kind)),
            self.bindings_infos@[spec_descriptor_type(*descriptor_kind)].binding_offset
                + spec_slot_index(*descriptor_kind) * spec_descriptor_size(
                self.descriptors_sizes,
                spec_descriptor_type(*descriptor_kind),
            ) <= u64::MAX,
        ensures
            w.descriptor_type == spec_descriptor_type(*descriptor_kind),
            w.size == spec_descriptor_size(self.descriptors_sizes, w.descriptor_type),
            w.offset == self.bindings_infos@[w.descriptor_type].binding_offset + spec_slot_index(*descriptor_kind)
                * w.size,
    {
        let descriptor_type = descriptor_kind.get_descriptor_type();
        let descriptor_size = if descriptor_type == DESCRIPTOR_TYPE_SAMPLED_IMAGE {
            self.descriptors_sizes.sampled_image_descriptor_size
        } else if descriptor_type == DESCRIPTOR_TYPE_STORAGE_IMAGE {
            self.descriptors_sizes.storage_image_descriptor_size
        } else {
            self.descriptors_sizes.sampler_descriptor_size
        };
        let binding_info = match self.bindings_infos.get(&descriptor_type) {
            Some(info) => *info,
            None => {
                proof { assert(false); }
                BindingInfo { binding_offset: 0 }
            },
        };
        let slot = descriptor_kind.slot_index();
        proof {
            let s = slot as int;
            let d = descriptor_size as int;
            assert(0 <= s * d) by (nonlinear_arith)
                requires s >= 0, d >= 0;
            assert(s * d <= u64::MAX);
        }
        let offset = binding_info.binding_offset + slot as u64 * descriptor_size as u64;
        DescriptorWrite { descriptor_type, offset, size: descriptor_size }
    }
}

/// Two descriptors of one type written at different slots of its binding
/// occupy byte ranges of the descriptor buffer that do not overlap.
pub proof fn law_descriptor_slots_do_not_overlap(binding_offset: u64, size: usize, slot_a: u32, slot_b: u32)
    requires
        slot_a != slot_b,
    ensures
        binding_offset + slot_a * size + size <= binding_offset + slot_b * size
            || binding_offset + slot_b * size + size <= binding_offset + slot_a * size,
{
    let a = slot_a as int;
    let b = slot_b as int;
    let d = size as int;
    if a < b {
        assert(a * d + d <= b * d) by (nonlinear_arith)
            requires a + 1 <= b, d >= 0;
    } else {
        assert(b * d + d <= a * d) by (nonlinear_arith)
            requires b + 1 <= a, d >= 0;
    }
}

} // verus!
