use vstd::prelude::*;

use crate::buffers_pool::BufferReference;
use crate::id::Id;
use crate::materials::{MaterialInfo, MaterialState, MaterialsPool, labels_size_prefix};
use crate::registry::IdRegistry;
use crate::samplers_pool::SamplerReference;
use crate::swappable_buffer::SwappableBuffer;
use crate::textures_pool::TextureReference;

verus! {

/// The buffers of an uploaded mesh, known by the mesh's identifier.
#[derive(Clone, Copy, PartialEq, Eq, Structural, Debug)]
pub struct MeshBuffer {
    pub id: Id,
    pub mesh_object_device_address: u64,
    pub vertex_buffer_reference: BufferReference,
    pub vertex_indices_buffer_reference: BufferReference,
    pub meshlets_buffer_reference: BufferReference,
    pub local_indices_buffer_reference: BufferReference,
    pub meshlets_count: usize,
}

/// The renderer's resources: mesh buffers, textures `T` and samplers `S`
/// known by identifier, the per-frame instance and scene buffers, and the
/// materials.
pub struct ResourcesPool<T, S> {
    pub mesh_buffers: IdRegistry<MeshBuffer>,
    pub textures: IdRegistry<T>,
    pub samplers: IdRegistry<S>,
    pub instances_buffer: Option<SwappableBuffer>,
    pub scene_data_buffer: Option<SwappableBuffer>,
    pub materials_pool: MaterialsPool,
}

impl<T, S> ResourcesPool<T, S> {
    pub open spec fn materials(&self) -> MaterialsPool {
        self.materials_pool
    }

    pub fn new() -> (pool: Self)
        ensures
            pool.mesh_buffers.entries().len() == 0,
            pool.textures.entries().len() == 0,
            pool.samplers.entries().len() == 0,
            pool.instances_buffer is None,
            pool.scene_data_buffer is None,
            pool.materials().wf(),
            pool.materials().labels().len() == 0,
            pool.materials().bytes().len() == 0,
            pool.materials().buffer_reference() == BufferReference::default_spec(),
    {
        ResourcesPool {
            mesh_buffers: IdRegistry::new(),
            textures: IdRegistry::new(),
            samplers: IdRegistry::new(),
            instances_buffer: None,
            scene_data_buffer: None,
            materials_pool: MaterialsPool::new(),
        }
    }
}

/// What the renderer keeps between frames besides device objects.
pub struct RendererResources<T, S> {
    pub default_texture_reference: TextureReference,
    pub fallback_texture_reference: TextureReference,
    pub default_sampler_reference: SamplerReference,
    pub mesh_objects_buffer_reference: BufferReference,
    pub resources_pool: ResourcesPool<T, S>,
    pub is_printed_scene_hierarchy: bool,
}

impl<T, S> RendererResources<T, S> {
    pub open spec fn materials(&self) -> MaterialsPool {
        self.resources_pool.materials()
    }

    /// The references and flags that no pool operation changes.
    pub open spec fn fixed_kept(a: Self, b: Self) -> bool {
        &&& a.default_texture_reference == b.default_texture_reference
        &&& a.fallback_texture_reference == b.fallback_texture_reference
        &&& a.default_sampler_reference == b.default_sampler_reference
        &&& a.mesh_objects_buffer_reference == b.mesh_objects_buffer_reference
        &&& a.is_printed_scene_hierarchy == b.is_printed_scene_hierarchy
        &&& a.resources_pool.scene_data_buffer == b.resources_pool.scene_data_buffer
    }

    /// `b` is `a` with at most the materials changed.
    pub open spec fn kept_but_materials(a: Self, b: Self) -> bool {
        &&& Self::fixed_kept(a, b)
        &&& b.resources_pool.mesh_buffers == a.resources_pool.mesh_buffers
        &&& b.resources_pool.textures == a.resources_pool.textures
        &&& b.resources_pool.samplers == a.resources_pool.samplers
        &&& b.resources_pool.instances_buffer == a.resources_pool.instances_buffer
    }

    /// `b` is `a` with at most the instance objects changed.
    pub open spec fn kept_but_instances(a: Self, b: Self) -> bool {
        &&& Self::fixed_kept(a, b)
        &&& b.resources_pool.mesh_buffers == a.resources_pool.mesh_buffers
        &&& b.resources_pool.textures == a.resources_pool.textures
        &&& b.resources_pool.samplers == a.resources_pool.samplers
        &&& b.resources_pool.materials_pool == a.resources_pool.materials_pool
    }

    /// `b` is `a` with at most the mesh buffers changed.
    pub open spec fn kept_but_mesh_buffers(a: Self, b: Self) -> bool {
        &&& Self::fixed_kept(a, b)
        &&& b.resources_pool.textures == a.resources_pool.textures
        &&& b.resources_pool.samplers == a.resources_pool.samplers
        &&& b.resources_pool.instances_buffer == a.resources_pool.instances_buffer
        &&& b.resources_pool.materials_pool == a.resources_pool.materials_pool
    }

    /// `b` is `a` with at most the textures changed.
    pub open spec fn kept_but_textures(a: Self, b: Self) -> bool {
        &&& Self::fixed_kept(a, b)
        &&& b.resources_pool.mesh_buffers == a.resources_pool.mesh_buffers
        &&& b.resources_pool.samplers == a.resources_pool.samplers
        &&& b.resources_pool.instances_buffer == a.resources_pool.instances_buffer
        &&& b.resources_pool.materials_pool == a.resources_pool.materials_pool
    }

    /// `b` is `a` with at most the samplers changed.
    pub open spec fn kept_but_samplers(a: Self, b: Self) -> bool {
        &&& Self::fixed_kept(a, b)
        &&& b.resources_pool.mesh_buffers == a.resources_pool.mesh_buffers
        &&& b.resources_pool.textures == a.resources_pool.textures
        &&& b.resources_pool.instances_buffer == a.resources_pool.instances_buffer
        &&& b.resources_pool.materials_pool == a.resources_pool.materials_pool
    }

    /// Appends a material's data under the next identifier.
    pub fn write_material(&mut self, data: &[u8], material_state: MaterialState) -> (id: Id)
        requires
            old(self).materials().wf(),
        ensures
            MaterialsPool::write_step(old(self).materials(), final(self).materials(), data@, material_state, id),
            Self::kept_but_materials(*old(self), *final(self)),
    {
        self.resources_pool.materials_pool.write_material(data, material_state)
    }

    pub fn reset_materails_to_write(&mut self)
        ensures
            final(self).materials().bytes().len() == 0,
            final(self).materials().labels() == old(self).materials().labels(),
            final(self).materials().buffer_reference() == old(self).materials().buffer_reference(),
            old(self).materials().wf() ==> final(self).materials().wf(),
            Self::kept_but_materials(*old(self), *final(self)),
    {
        self.resources_pool.materials_pool.reset_materails_to_write();
    }

    pub fn get_materials_data_buffer_reference(&self) -> (r: BufferReference)
        ensures
            r == self.materials().buffer_reference(),
    {
        self.resources_pool.materials_pool.get_materials_data_buffer_reference()
    }

    pub fn set_materials_data_buffer_reference(&mut self, materials_data_buffer_reference: BufferReference)
        ensures
            final(self).materials().buffer_reference() == materials_data_buffer_reference,
            final(self).materials().labels() == old(self).materials().labels(),
            final(self).materials().bytes() == old(self).materials().bytes(),
            old(self).materials().wf() ==> final(self).materials().wf(),
            Self::kept_but_materials(*old(self), *final(self)),
    {
        self.resources_pool.materials_pool.set_materials_data_buffer_reference(materials_data_buffer_reference);
    }

    /// Places the materials one after another from `device_address_materials_data`.
    pub fn set_materials_labels_device_addresses(&mut self, device_address_materials_data: u64)
        requires
            device_address_materials_data + labels_size_prefix(
                old(self).materials().labels(),
                old(self).materials().labels().len() as int,
            ) <= u64::MAX,
        ensures
            MaterialsPool::place_step(old(self).materials(), final(self).materials(), device_address_materials_data),
            Self::kept_but_materials(*old(self), *final(self)),
    {
        self.resources_pool.materials_pool.set_materials_labels_device_addresses(device_address_materials_data);
    }

    pub fn get_materials_data_to_write(&self) -> (bytes: &[u8])
        ensures
            bytes@ == self.materials().bytes(),
    {
        self.resources_pool.materials_pool.get_materials_data_to_write()
    }

    pub fn get_materials_data_to_write_len(&self) -> (n: usize)
        ensures
            n == self.materials().bytes().len(),
    {
        self.resources_pool.materials_pool.get_materials_data_to_write_len()
    }

    /// The blending and data address of the material written under `material_label_id`.
    pub fn get_material_data_device_address_by_id(&self, material_label_id: Id) -> (info: MaterialInfo)
        requires
            self.materials().wf(),
            material_label_id.value < self.materials().labels().len(),
        ensures
            info.material_type == self.materials().labels()[material_label_id.value as int].material_state.material_type,
            info.device_adddress_materail_data
                == self.materials().labels()[material_label_id.value as int].device_address_material_data,
    {
        self.resources_pool.materials_pool.get_material_info_device_address_by_id(material_label_id)
    }

    /// Gathers the bytes of one instance object for the current frame and
    /// returns the position of its last byte.
    pub fn write_instance_object(&mut self, instance_object_bytes: &[u8]) -> (last: usize)
        requires
            old(self).resources_pool.instances_buffer is Some,
            old(self).resources_pool.instances_buffer.unwrap().data().len() + instance_object_bytes@.len() > 0,
        ensures
            final(self).resources_pool.instances_buffer is Some,
            final(self).resources_pool.instances_buffer.unwrap().data()
                == old(self).resources_pool.instances_buffer.unwrap().data() + instance_object_bytes@,
            last == final(self).resources_pool.instances_buffer.unwrap().data().len() - 1,
            final(self).resources_pool.instances_buffer.unwrap().buffers()
                == old(self).resources_pool.instances_buffer.unwrap().buffers(),
            final(self).resources_pool.instances_buffer.unwrap().current()
                == old(self).resources_pool.instances_buffer.unwrap().current(),
            Self::kept_but_instances(*old(self), *final(self)),
    {
        match &mut self.resources_pool.instances_buffer {
            Some(buffer) => buffer.write_data_to_current_buffer(instance_object_bytes),
            None => {
                proof { assert(false); }
                0
            },
        }
    }

    /// Keeps a mesh buffer unless one with its identifier is kept already;
    /// returns its identifier.
    pub fn insert_mesh_buffer(&mut self, mesh_buffer: MeshBuffer) -> (id: Id)
        ensures
            id == mesh_buffer.id,
            old(self).resources_pool.mesh_buffers.has_id(id) ==> final(self).resources_pool.mesh_buffers.entries()
                == old(self).resources_pool.mesh_buffers.entries(),
            !old(self).resources_pool.mesh_buffers.has_id(id) ==> final(self).resources_pool.mesh_buffers.entries()
                == old(self).resources_pool.mesh_buffers.entries().push((id, mesh_buffer)),
            Self::kept_but_mesh_buffers(*old(self), *final(self)),
    {
        let id = mesh_buffer.id;
        self.resources_pool.mesh_buffers.insert(id, mesh_buffer)
    }

    /// Keeps a texture unless one with its identifier is kept already.
    pub fn insert_texture(&mut self, id: Id, texture: T) -> (r: Id)
        ensures
            r == id,
            old(self).resources_pool.textures.has_id(id) ==> final(self).resources_pool.textures.entries()
                == old(self).resources_pool.textures.entries(),
            !old(self).resources_pool.textures.has_id(id) ==> final(self).resources_pool.textures.entries()
                == old(self).resources_pool.textures.entries().push((id, texture)),
            Self::kept_but_textures(*old(self), *final(self)),
    {
        self.resources_pool.textures.insert(id, texture)
    }

    /// Keeps a sampler unless one with its identifier is kept already.
    pub fn insert_sampler(&mut self, id: Id, sampler: S) -> (r: Id)
        ensures
            r == id,
            old(self).resources_pool.samplers.has_id(id) ==> final(self).resources_pool.samplers.entries()
                == old(self).resources_pool.samplers.entries(),
            !old(self).resources_pool.samplers.has_id(id) ==> final(self).resources_pool.samplers.entries()
                == old(self).resources_pool.samplers.entries().push((id, sampler)),
            Self::kept_but_samplers(*old(self), *final(self)),
    {
        self.resources_pool.samplers.insert(id, sampler)
    }

    /// Every mesh buffer, in insertion order.
    pub fn get_mesh_buffers_iter(&self) -> (items: Vec<&MeshBuffer>)
        ensures
            items@.len() == self.resources_pool.mesh_buffers.entries().len(),
            forall|i: int| 0 <= i < items@.len() ==> *(#[trigger] items@[i]) == self.resources_pool.mesh_buffers.entries()[i].1,
    {
        self.resources_pool.mesh_buffers.items()
    }

    /// Every texture, in insertion order.
    pub fn get_textures_iter(&self) -> (items: Vec<&T>)
        ensures
            items@.len() == self.resources_pool.textures.entries().len(),
            forall|i: int| 0 <= i < items@.len() ==> *(#[trigger] items@[i]) == self.resources_pool.textures.entries()[i].1,
    {
        self.resources_pool.textures.items()
    }

    /// Every sampler, in insertion order.
    pub fn get_samplers_iter(&self) -> (items: Vec<&S>)
        ensures
            items@.len() == self.resources_pool.samplers.entries().len(),
            forall|i: int| 0 <= i < items@.len() ==> *(#[trigger] items@[i]) == self.resources_pool.samplers.entries()[i].1,
    {
        self.resources_pool.samplers.items()
    }

    /// The mesh buffer kept under `id`.
    pub fn get_mesh_buffer_ref(&self, id: Id) -> (m: &MeshBuffer)
        requires
            self.resources_pool.mesh_buffers.has_id(id),
        ensures
            *m == self.resources_pool.mesh_buffers.entries()[self.resources_pool.mesh_buffers.first_index(id)].1,
    {
        self.resources_pool.mesh_buffers.get(id)
    }

    /// The texture kept under `id`.
    pub fn get_texture_ref(&self, id: Id) -> (t: &T)
        requires
            self.resources_pool.textures.has_id(id),
        ensures
            *t == self.resources_pool.textures.entries()[self.resources_pool.textures.first_index(id)].1,
    {
        self.resources_pool.textures.get(id)
    }

    /// The sampler kept under `id`.
    pub fn get_sampler(&self, id: Id) -> (s: &S)
        requires
            self.resources_pool.samplers.has_id(id),
        ensures
            *s == self.resources_pool.samplers.entries()[self.resources_pool.samplers.first_index(id)].1,
    {
        self.resources_pool.samplers.get(id)
    }

    /// A mutable borrow of the mesh buffer kept under `id`.
    pub fn get_mesh_buffer_ref_mut(&mut self, id: Id) -> (m: &mut MeshBuffer)
        requires
            old(self).resources_pool.mesh_buffers.has_id(id),
        ensures
            *m == old(self).resources_pool.mesh_buffers.entries()[old(self).resources_pool.mesh_buffers.first_index(id)].1,
            final(self).resources_pool.mesh_buffers.entries() == old(self).resources_pool.mesh_buffers.entries().update(
                old(self).resources_pool.mesh_buffers.first_index(id),
                (id, *final(m)),
            ),
            Self::kept_but_mesh_buffers(*old(self), *final(self)),
    {
        self.resources_pool.mesh_buffers.get_mut(id)
    }
    /// A mutable borrow of the texture kept under `id`.
    pub fn get_texture_ref_mut(&mut self, id: Id) -> (t: &mut T)
        requires
            old(self).resources_pool.textures.has_id(id),
        ensures
            *t == old(self).resources_pool.textures.entries()[old(self).resources_pool.textures.first_index(id)].1,
            final(self).resources_pool.textures.entries() == old(self).resources_pool.textures.entries().update(
                old(self).resources_pool.textures.first_index(id),
                (id, *final(t)),
            ),
            Self::kept_but_textures(*old(self), *final(self)),
    {
        self.resources_pool.textures.get_mut(id)
    }

    /// A mutable borrow of the sampler kept under `id`.
    pub fn get_sampler_ref_mut(&mut self, id: Id) -> (s: &mut S)
        requires
            old(self).resources_pool.samplers.has_id(id),
        ensures
            *s == old(self).resources_pool.samplers.entries()[old(self).resources_pool.samplers.first_index(id)].1,
            final(self).resources_pool.samplers.entries() == old(self).resources_pool.samplers.entries().update(
                old(self).resources_pool.samplers.first_index(id),
                (id, *final(s)),
            ),
            Self::kept_but_samplers(*old(self), *final(self)),
    {
        self.resources_pool.samplers.get_mut(id)
    }
}

} // verus!
