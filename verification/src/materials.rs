use vstd::prelude::*;

use crate::buffers_pool::BufferReference;
use crate::id::Id;

verus! {

/// How a material is blended.
#[derive(Clone, Copy, PartialEq, Eq, Structural, Debug)]
pub enum MaterialType {
    Opaque,
    Transparent,
}

impl Default for MaterialType {
    fn default() -> (t: Self)
        ensures
            t == MaterialType::Opaque,
    {
        MaterialType::Opaque
    }
}

pub open spec fn spec_material_type_code(t: MaterialType) -> u8 {
    match t {
        MaterialType::Opaque => 0,
        MaterialType::Transparent => 1,
    }
}

impl MaterialType {
    /// The number a shader knows the material type by.
    pub fn code(&self) -> (c: u8)
        ensures
            c == spec_material_type_code(*self),
    {
        match self {
            MaterialType::Opaque => 0u8,
            MaterialType::Transparent => 1u8,
        }
    }
}

/// Pipeline state a material needs.
#[derive(Clone, Copy, PartialEq, Eq, Structural, Debug)]
pub struct MaterialState {
    pub material_type: MaterialType,
}

/// Indices of the textures a material samples, as the shaders read them.
#[derive(Clone, Copy, PartialEq, Eq, Structural, Debug)]
pub struct MaterialTextures {
    pub albedo_texture_index: u32,
    pub metallic_texture_index: u32,
    pub roughness_texture_index: u32,
}

impl MaterialTextures {
    /// Narrows each texture index to the 32 bits the shaders read.
    pub fn new(
        albedo_texture_index: usize,
        metallic_texture_index: usize,
        roughness_texture_index: usize,
    ) -> (textures: Self)
        ensures
            textures.albedo_texture_index == albedo_texture_index as u32,
            textures.metallic_texture_index == metallic_texture_index as u32,
            textures.roughness_texture_index == roughness_texture_index as u32,
    {
        MaterialTextures {
            albedo_texture_index: albedo_texture_index as u32,
            metallic_texture_index: metallic_texture_index as u32,
            roughness_texture_index: roughness_texture_index as u32,
        }
    }
}

/// What the pool remembers of one written material.
#[derive(Clone, Copy, PartialEq, Eq, Structural, Debug)]
pub struct MaterialLabel {
    pub id: Id,
    pub material_state: MaterialState,
    pub size: usize,
    pub device_address_material_data: u64,
}

/// The blending and the device address of a material's data.
#[derive(Clone, Copy, PartialEq, Eq, Structural, Debug)]
pub struct MaterialInfo {
    pub material_type: MaterialType,
    pub device_adddress_materail_data: u64,
}

/// Sum of the sizes of the first `n` labels.
pub open spec fn labels_size_prefix(labels: Seq<MaterialLabel>, n: int) -> int
    decreases n,
{
    if n <= 0 {
        0
    } else {
        labels_size_prefix(labels, n - 1) + labels[n - 1].size
    }
}

/// Materials whose data is gathered into one byte stream, to be uploaded to
/// one buffer; each material is found again by the identifier it was written
/// under.
pub struct MaterialsPool {
    materials_data_buffer_reference: BufferReference,
    materials_to_write: Vec<u8>,
    material_labels: Vec<MaterialLabel>,
}

impl MaterialsPool {
    pub closed spec fn labels(&self) -> Seq<MaterialLabel> {
        self.material_labels@
    }

    pub closed spec fn bytes(&self) -> Seq<u8> {
        self.materials_to_write@
    }

    pub closed spec fn buffer_reference(&self) -> BufferReference {
        self.materials_data_buffer_reference
    }

    /// Each label carries its position as its identifier.
    pub closed spec fn wf(&self) -> bool {
        forall|i: int| 0 <= i < self.material_labels@.len() ==> (#[trigger] self.material_labels@[i]).id.value == i
    }

    /// An empty pool whose buffer reference is the default one.
    pub fn new() -> (pool: Self)
        ensures
            pool.wf(),
            pool.labels().len() == 0,
            pool.bytes().len() == 0,
            pool.buffer_reference() == BufferReference::default_spec(),
    {
        MaterialsPool {
            materials_data_buffer_reference: BufferReference::default(),
            materials_to_write: Vec::new(),
            material_labels: Vec::new(),
        }
    }

    /// `after` is `before` with `data` appended and a label for it under the
    /// next identifier `id`.
    pub open spec fn write_step(before: Self, after: Self, data: Seq<u8>, material_state: MaterialState, id: Id) -> bool {
        &&& after.wf()
        &&& id.value == before.labels().len()
        &&& after.labels() == before.labels().push(MaterialLabel {
            id,
            material_state,
            size: data.len() as usize,
            device_address_material_data: 0,
        })
        &&& after.bytes() == before.bytes() + data
        &&& after.buffer_reference() == before.buffer_reference()
    }

    /// `after` is `before` with each material placed at `base` plus the sizes
    /// of the materials before it.
    pub open spec fn place_step(before: Self, after: Self, base: u64) -> bool {
        &&& after.labels().len() == before.labels().len()
        &&& forall|i: int| 0 <= i < after.labels().len() ==> {
            &&& (#[trigger] after.labels()[i]).id == before.labels()[i].id
            &&& after.labels()[i].material_state == before.labels()[i].material_state
            &&& after.labels()[i].size == before.labels()[i].size
            &&& after.labels()[i].device_address_material_data == base + labels_size_prefix(before.labels(), i)
        }
        &&& after.bytes() == before.bytes()
        &&& after.buffer_reference() == before.buffer_reference()
        &&& (before.wf() ==> after.wf())
    }

    /// Appends a material's data and labels it with the next identifier.
    pub fn write_material(&mut self, data: &[u8], material_state: MaterialState) -> (id: Id)
        requires
            old(self).wf(),
        ensures
            Self::write_step(*old(self), *final(self), data@, material_state, id),
    {
        let id = Id::new(self.material_labels.len() as u64);
        let material_label = MaterialLabel {
            id,
            size: data.len(),
            material_state,
            device_address_material_data: 0,
        };
        let ghost old_labels = self.material_labels@;
        self.material_labels.push(material_label);
        let ghost new_labels = self.material_labels@;
        assert(new_labels == old_labels.push(material_label));
        let ghost old_bytes = self.materials_to_write@;
        let mut i: usize = 0;
        while i < data.len()
            invariant
                i <= data@.len(),
                self.materials_to_write@ == old_bytes + data@.subrange(0, i as int),
                self.material_labels@ == new_labels,
                self.materials_data_buffer_reference == old(self).materials_data_buffer_reference,
            decreases data@.len() - i,
        {
            self.materials_to_write.push(data[i]);
            i = i + 1;
            assert(data@.subrange(0, i as int) == data@.subrange(0, i - 1 as int).push(data@[i - 1]));
        }
        assert(data@.subrange(0, data@.len() as int) == data@);
        assert forall|j: int| 0 <= j < self.material_labels@.len() implies (#[trigger] self.material_labels@[j]).id.value == j by {
            if j < old_labels.len() {
                assert(self.material_labels@[j] == old_labels[j]);
            }
        }
        id
    }

    /// Forgets the bytes gathered so far; the labels stay.
    pub fn reset_materails_to_write(&mut self)
        ensures
            final(self).bytes().len() == 0,
            final(self).labels() == old(self).labels(),
            final(self).buffer_reference() == old(self).buffer_reference(),
            old(self).wf() ==> final(self).wf(),
    {
        self.materials_to_write.clear();
    }

    pub fn get_materials_data_buffer_reference(&self) -> (r: BufferReference)
        ensures
            r == self.buffer_reference(),
    {
        self.materials_data_buffer_reference
    }

    pub fn set_materials_data_buffer_reference(&mut self, materials_data_buffer_reference: BufferReference)
        ensures
            final(self).buffer_reference() == materials_data_buffer_reference,
            final(self).labels() == old(self).labels(),
            final(self).bytes() == old(self).bytes(),
            old(self).wf() ==> final(self).wf(),
    {
        self.materials_data_buffer_reference = materials_data_buffer_reference;
    }

    /// Places the materials one after another from
    /// `device_address_materials_data`: each label gets that address plus the
    /// sizes of the labels before it.
    pub fn set_materials_labels_device_addresses(&mut self, device_address_materials_data: u64)
        requires
            device_address_materials_data + labels_size_prefix(old(self).labels(), old(self).labels().len() as int)
                <= u64::MAX,
        ensures
            Self::place_step(*old(self), *final(self), device_address_materials_data),
    {
        let ghost old_labels = self.material_labels@;
        let n = self.material_labels.len();
        let mut address = device_address_materials_data;
        let mut index: usize = 0;
        while index < n
            invariant
                n == old_labels.len(),
                index <= n,
                self.material_labels@.len() == n,
                self.materials_to_write@ == old(self).materials_to_write@,
                self.materials_data_buffer_reference == old(self).materials_data_buffer_reference,
                address == device_address_materials_data + labels_size_prefix(old_labels, index as int),
                device_address_materials_data + labels_size_prefix(old_labels, n as int) <= u64::MAX,
                forall|i: int| 0 <= i < n ==> {
                    &&& (#[trigger] self.material_labels@[i]).id == old_labels[i].id
                    &&& self.material_labels@[i].material_state == old_labels[i].material_state
                    &&& self.material_labels@[i].size == old_labels[i].size
                },
                forall|i: int| 0 <= i < index ==> (#[trigger] self.material_labels@[i]).device_address_material_data
                    == device_address_materials_data + labels_size_prefix(old_labels, i),
            decreases n - index,
        {
            proof {
                lemma_prefix_monotone(old_labels, index as int + 1, n as int);
            }
            let label = self.material_labels[index];
            self.material_labels[index] = MaterialLabel { device_address_material_data: address, ..label };
            address = address + label.size as u64;
            index = index + 1;
        }
        proof {
            if old(self).wf() {
                assert forall|i: int| 0 <= i < self.material_labels@.len() implies
                    (#[trigger] self.material_labels@[i]).id.value == i by {
                    assert(old_labels[i].id.value == i);
                }
            }
        }
    }

    pub fn get_materials_data_to_write(&self) -> (bytes: &[u8])
        ensures
            bytes@ == self.bytes(),
    {
        self.materials_to_write.as_slice()
    }

    pub fn get_materials_data_to_write_len(&self) -> (n: usize)
        ensures
            n == self.bytes().len(),
    {
        self.materials_to_write.len()
    }

    /// The blending and data address of the material written under
    /// `material_label_id`.
    pub fn get_material_info_device_address_by_id(&self, material_label_id: Id) -> (info: MaterialInfo)
        requires
            self.wf(),
            material_label_id.value < self.labels().len(),
        ensures
            info.material_type == self.labels()[material_label_id.value as int].material_state.material_type,
            info.device_adddress_materail_data
                == self.labels()[material_label_id.value as int].device_address_material_data,
    {
        let mut index: usize = 0;
        while index < self.material_labels.len()
            invariant
                self.wf(),
                material_label_id.value < self.material_labels@.len(),
                index <= material_label_id.value,
                forall|j: int| 0 <= j < index ==> (#[trigger] self.material_labels@[j]).id != material_label_id,
            decreases self.material_labels@.len() - index,
        {
            let label = &self.material_labels[index];
            if label.id == material_label_id {
                return MaterialInfo {
                    material_type: label.material_state.material_type,
                    device_adddress_materail_data: label.device_address_material_data,
                };
            }
            assert(self.material_labels@[index as int].id.value == index);
            index = index + 1;
        }
        proof {
            assert(self.material_labels@[material_label_id.value as int].id.value == material_label_id.value);
            assert(false);
        }
        MaterialInfo { material_type: MaterialType::Opaque, device_adddress_materail_data: 0 }
    }
}

/// The sizes of the labels only grow the running sum.
pub proof fn lemma_prefix_monotone(labels: Seq<MaterialLabel>, a: int, b: int)
    requires
        a <= b,
    ensures
        labels_size_prefix(labels, a) <= labels_size_prefix(labels, b),
    decreases b - a,
{
    if a < b {
        lemma_prefix_monotone(labels, a, b - 1);
        if b > 0 {
            assert(labels_size_prefix(labels, b) == labels_size_prefix(labels, b - 1) + labels[b - 1].size);
        }
    }
}

/// A material written under `id` and then placed from `base` is found under
/// `id` with its blending, at `base` plus the size of all the material data
/// written before it.
pub proof fn law_material_found_where_placed(
    p0: MaterialsPool,
    p1: MaterialsPool,
    p2: MaterialsPool,
    data: Seq<u8>,
    material_state: MaterialState,
    id: Id,
    base: u64,
)
    requires
        p0.wf(),
        MaterialsPool::write_step(p0, p1, data, material_state, id),
        MaterialsPool::place_step(p1, p2, base),
    ensures
        p2.wf(),
        id.value < p2.labels().len(),
        p2.labels()[id.value as int].material_state.material_type == material_state.material_type,
        p2.labels()[id.value as int].device_address_material_data == base + labels_size_prefix(
            p0.labels(),
            p0.labels().len() as int,
        ),
{
    let i = id.value as int;
    assert(p1.labels()[i].material_state == material_state);
    assert(labels_size_prefix(p1.labels(), i) == labels_size_prefix(p0.labels(), i)) by {
        lemma_prefix_of_push(p0.labels(), p1.labels(), i);
    }
}

proof fn lemma_prefix_of_push(a: Seq<MaterialLabel>, b: Seq<MaterialLabel>, n: int)
    requires
        0 <= n <= a.len(),
        b.len() == a.len() + 1,
        forall|k: int| 0 <= k < a.len() ==> b[k] == a[k],
    ensures
        labels_size_prefix(b, n) == labels_size_prefix(a, n),
    decreases n,
{
    if n > 0 {
        lemma_prefix_of_push(a, b, n - 1);
    }
}

} // verus!
