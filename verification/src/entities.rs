use vstd::prelude::*;

use crate::id::Id;
use crate::mesh_buffers_pool::MeshBufferReference;

verus! {

/// A mesh drawn in the world: the buffers it is drawn from, its material, and
/// where its instance object was gathered this frame, once it was.
#[derive(Clone, Copy, PartialEq, Eq, Structural, Debug)]
pub struct Mesh {
    pub instance_object_index: Option<usize>,
    pub mesh_buffer_reference: MeshBufferReference,
    pub material_id: Id,
}

/// Asks for the model file at `path` to be loaded and spawned.
pub struct LoadModelEvent {
    pub path: String,
}

/// A mesh of a loaded model file.
pub struct MeshAsset {}

/// A loaded model file.
pub struct ModelAsset {}

} // verus!
