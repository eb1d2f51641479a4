use vstd::prelude::*;
use std::collections::HashMap;

use crate::flags::{FORMAT_D32_SFLOAT, IMAGE_ASPECT_COLOR, IMAGE_ASPECT_DEPTH};
use crate::id::Id;

verus! {

broadcast use vstd::std_specs::hash::group_hash_axioms;

/// Extent and mip count of a texture, as stored next to cached texture data.
#[derive(Clone, Copy, PartialEq, Eq, Structural, Debug)]
pub struct TextureMetadata {
    pub width: u32,
    pub height: u32,
    pub mip_levels_count: u32,
}

/// A reference to a texture: the descriptor slot it is bound at and its
/// metadata.
#[derive(Clone, Copy, PartialEq, Eq, Structural, Debug)]
pub struct TextureReference {
    pub index: u32,
    pub generation: u32,
    pub texture_metadata: TextureMetadata,
}

impl Default for TextureReference {
    fn default() -> (r: Self)
        ensures
            r.index == 0,
            r.generation == 0,
            r.texture_metadata.width == 0,
            r.texture_metadata.height == 0,
            r.texture_metadata.mip_levels_count == 0,
    {
        TextureReference {
            index: 0,
            generation: 0,
            texture_metadata: TextureMetadata { width: 0, height: 0, mip_levels_count: 0 },
        }
    }
}

pub open spec fn spec_image_aspect(format: u32) -> u32 {
    if format == FORMAT_D32_SFLOAT { IMAGE_ASPECT_DEPTH } else { IMAGE_ASPECT_COLOR }
}

/// Depth images are viewed through their depth aspect, all others through
/// their color aspect.
pub fn image_aspect_for_format(format: u32) -> (aspect: u32)
    ensures
        aspect == spec_image_aspect(format),
{
    if format == FORMAT_D32_SFLOAT { IMAGE_ASPECT_DEPTH } else { IMAGE_ASPECT_COLOR }
}

/// What an image and its view are created with besides the format, extent
/// and usage: one level unless a mip count is given, one layer, the aspect by
/// format.
#[derive(Clone, Copy, PartialEq, Eq, Structural, Debug)]
pub struct ImageCreatePlan {
    pub mip_levels: u32,
    pub array_layers: u32,
    pub aspect_mask: u32,
}

pub fn image_create_plan(format: u32, mip_levels: Option<u32>) -> (plan: ImageCreatePlan)
    ensures
        plan.mip_levels == (match mip_levels { Some(n) => n, None => 1 }),
        plan.array_layers == 1,
        plan.aspect_mask == spec_image_aspect(format),
{
    let levels = match mip_levels {
        Some(n) => n,
        None => 1u32,
    };
    ImageCreatePlan { mip_levels: levels, array_layers: 1, aspect_mask: image_aspect_for_format(format) }
}

/// Images kept in creation order and found again by their identifier.
pub struct TexturesPool<I> {
    images: Vec<I>,
    images_map: HashMap<u64, usize>,
}

impl<I> TexturesPool<I> {
    pub closed spec fn images(&self) -> Seq<I> {
        self.images@
    }

    /// Position of the image kept under each identifier value.
    pub closed spec fn index_of(&self) -> Map<u64, usize> {
        self.images_map@
    }

    pub closed spec fn wf(&self) -> bool {
        forall|k: u64| #[trigger] self.images_map@.contains_key(k) ==> self.images_map@[k] < self.images@.len()
    }

    pub fn new() -> (pool: Self)
        ensures
            pool.wf(),
            pool.images().len() == 0,
            pool.index_of() == Map::<u64, usize>::empty(),
    {
        TexturesPool { images: Vec::new(), images_map: HashMap::new() }
    }

    /// Whether an image is kept under `id`.
    pub fn contains(&self, id: Id) -> (b: bool)
        ensures
            b == self.index_of().contains_key(id.value),
    {
        self.images_map.contains_key(&id.value)
    }

    /// Keeps a new image under `id`, which no image may have yet, and returns
    /// its position.
    pub fn insert_image(&mut self, id: Id, image: I) -> (index: usize)
        requires
            old(self).wf(),
            !old(self).index_of().contains_key(id.value),
        ensures
            final(self).wf(),
            index == old(self).images().len(),
            final(self).images() == old(self).images().push(image),
            final(self).index_of() == old(self).index_of().insert(id.value, index),
    {
        self.images.push(image);
        let index = self.images.len() - 1;
        self.images_map.insert(id.value, index);
        index
    }

    /// Empties the pool, handing back every image in creation order so that
    /// it can be destroyed.
    pub fn free_allocations(&mut self) -> (images: Vec<I>)
        ensures
            final(self).wf(),
            final(self).images().len() == 0,
            final(self).index_of() == Map::<u64, usize>::empty(),
            images@ == old(self).images(),
    {
        let mut images: Vec<I> = Vec::new();
        std::mem::swap(&mut images, &mut self.images);
        self.images_map.clear();
        images
    }

    /// The image kept under `id`, if any.
    pub fn get_image(&self, id: Id) -> (r: Option<&I>)
        requires
            self.wf(),
        ensures
            match r {
                Some(image) => self.index_of().contains_key(id.value)
                    && *image == self.images()[self.index_of()[id.value] as int],
                None => !self.index_of().contains_key(id.value),
            },
    {
        match self.images_map.get(&id.value) {
            Some(index) => Some(&self.images[*index]),
            None => None,
        }
    }
}

/// A reference to an image of a [`TexturesPool`] by its identifier, with the
/// texture's metadata.
#[derive(Clone, Copy, PartialEq, Eq, Structural, Debug)]
pub struct ImageReference {
    pub image_id: Id,
    pub texture_metadata: TextureMetadata,
}

impl ImageReference {
    pub fn new(image_id: Id, texture_metadata: TextureMetadata) -> (r: Self)
        ensures
            r.image_id == image_id,
            r.texture_metadata == texture_metadata,
    {
        ImageReference { image_id, texture_metadata }
    }

    /// The image the reference names, if the pool still keeps it.
    pub fn get_image<'a, I>(&self, pool: &'a TexturesPool<I>) -> (r: Option<&'a I>)
        requires
            pool.wf(),
        ensures
            match r {
                Some(image) => pool.index_of().contains_key(self.image_id.value)
                    && *image == pool.images()[pool.index_of()[self.image_id.value] as int],
                None => !pool.index_of().contains_key(self.image_id.value),
            },
    {
        pool.get_image(self.image_id)
    }

    /// The identifier of the image when the pool keeps it, the null
    /// identifier otherwise.
    pub fn get_image_id<I>(&self, pool: &TexturesPool<I>) -> (id: Id)
        ensures
            id == (if pool.index_of().contains_key(self.image_id.value) {
                self.image_id
            } else {
                Id { value: crate::id::NULL_ID_VALUE }
            }),
    {
        if pool.contains(self.image_id) {
            self.image_id
        } else {
            Id::null()
        }
    }

    pub fn get_texture_metadata(&self) -> (m: TextureMetadata)
        ensures
            m == self.texture_metadata,
    {
        self.texture_metadata
    }
}

} // verus!
