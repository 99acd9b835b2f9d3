//! What flattening asks of the store of image resources.

use crate::display_list::ImageKey;
use crate::frame::FrameId;
use std::collections::HashMap;
use vstd::prelude::*;
use vstd::std_specs::hash::spec_keys_iter;
use vstd::std_specs::iter::IteratorSpec;

verus! {

broadcast use vstd::std_specs::hash::group_hash_axioms;

#[derive(Clone, Copy, Debug, PartialEq, Eq, Structural)]
pub struct ImageDescriptor {
    pub width: u32,
    pub height: u32,
    pub is_opaque: bool,
}

/// The size of an image in pixels and, if it is stored as a grid of
/// tiles, the side of a tile.
#[derive(Clone, Copy, Debug, PartialEq, Eq, Structural)]
pub struct ImageProperties {
    pub descriptor: ImageDescriptor,
    pub tiling: Option<u16>,
}

/// Images are keyed by `ImageKey::key`.
pub struct ResourceCache {
    pub image_templates: HashMap<u64, ImageProperties>,
    /// The frame that the last request to expire resources named.
    pub expired_up_to: Option<FrameId>,
}

impl ImageProperties {
    /// The side of the tiles that the image is cut into when it is drawn:
    /// its tile size, if the image is larger than a tile along an axis. An
    /// image that is no larger than a tile is drawn as one.
    pub open spec fn spec_tile_size_if_larger(self) -> Option<u16> {
        match self.tiling {
            Some(tile_size) => if self.descriptor.width > tile_size || self.descriptor.height
                > tile_size {
                Some(tile_size)
            } else {
                None
            },
            None => None,
        }
    }

    pub fn tile_size_if_larger(&self) -> (tile_size: Option<u16>)
        ensures
            tile_size == self.spec_tile_size_if_larger(),
    {
        match self.tiling {
            Some(tile_size) => if self.descriptor.width > tile_size as u32
                || self.descriptor.height > tile_size as u32 {
                Some(tile_size)
            } else {
                None
            },
            None => None,
        }
    }
}

impl ImageKey {
    pub open spec fn spec_key(self) -> u64 {
        (self.0 * 0x1_0000_0000 + self.1) as u64
    }

    pub fn key(&self) -> (k: u64)
        ensures
            k == self.spec_key(),
    {
        self.0 as u64 * 0x1_0000_0000 + self.1 as u64
    }

    /// Different images have different keys.
    pub proof fn lemma_key_is_injective(a: ImageKey, b: ImageKey)
        ensures
            a.spec_key() == b.spec_key() <==> a == b,
    {
    }
}

/// What is said of an image that the cache does not hold: no pixels, no
/// tiles.
pub open spec fn spec_placeholder() -> ImageProperties {
    ImageProperties {
        descriptor: ImageDescriptor { width: 0, height: 0, is_opaque: false },
        tiling: None,
    }
}

impl ResourceCache {
    /// Whether no image is said to have tiles without size.
    pub open spec fn spec_well_formed(&self) -> bool {
        forall|k: u64| #[trigger]
            self.image_templates@.contains_key(k) ==> self.image_templates@[k].tiling != Some(0u16)
    }

    /// Checks whether no image is said to have tiles without size.
    pub fn is_well_formed(&self) -> (ok: bool)
        ensures
            ok == self.spec_well_formed(),
    {
        let mut ok = true;
        let ghost keys = spec_keys_iter(&self.image_templates).remaining();
        for key in iter: self.image_templates.keys()
            invariant
                iter.seq() == keys,
                keys.unref().to_set() == self.image_templates@.dom(),
                ok == (forall|i: int|
                    0 <= i < iter.index() ==> self.image_templates@[*(#[trigger] keys[i])].tiling
                        != Some(0u16)),
        {
            match self.image_templates.get(key) {
                Some(properties) => {
                    match properties.tiling {
                        Some(tile_size) => {
                            if tile_size == 0 {
                                ok = false;
                            }
                        },
                        None => {},
                    }
                },
                None => {},
            }
        }
        proof {
            if ok {
                assert forall|k: u64| #[trigger]
                    self.image_templates@.contains_key(k) implies self.image_templates@[k].tiling
                    != Some(0u16) by {
                    let i = choose|i: int| 0 <= i < keys.unref().len() && keys.unref()[i] == k;
                }
            } else {
                let i = choose|i: int|
                    0 <= i < keys.len() && !(self.image_templates@[*(#[trigger] keys[i])].tiling
                        != Some(0u16));
                assert(keys.unref()[i] == *keys[i]);
                assert(keys.unref().to_set().contains(*keys[i]));
            }
        }
        ok
    }

    pub fn new() -> (cache: ResourceCache)
        ensures
            cache.image_templates@ == Map::<u64, ImageProperties>::empty(),
            cache.expired_up_to is None,
            cache.spec_well_formed(),
    {
        ResourceCache { image_templates: HashMap::new(), expired_up_to: None }
    }

    /// Tells the cache of an image, replacing what it knew of that key. A
    /// cache that is well formed stays so unless the image is said to have
    /// tiles without size.
    pub fn add_image_template(
        &mut self,
        image_key: ImageKey,
        descriptor: ImageDescriptor,
        tiling: Option<u16>,
    )
        ensures
            old(self).spec_well_formed() && tiling != Some(0u16) ==> final(self).spec_well_formed(),
            final(self).image_templates@ == old(self).image_templates@.insert(
                image_key.spec_key(),
                ImageProperties { descriptor, tiling },
            ),
            final(self).expired_up_to == old(self).expired_up_to,
    {
        let _ = self.image_templates.insert(image_key.key(), ImageProperties { descriptor, tiling });
    }

    /// What the cache says of an image: what it was told, or the
    /// placeholder.
    pub open spec fn spec_get_image_properties(&self, image_key: ImageKey) -> ImageProperties {
        if self.image_templates@.contains_key(image_key.spec_key()) {
            self.image_templates@[image_key.spec_key()]
        } else {
            spec_placeholder()
        }
    }

    pub fn get_image_properties(&self, image_key: ImageKey) -> (properties: ImageProperties)
        ensures
            properties == self.spec_get_image_properties(image_key),
    {
        match self.image_templates.get(&image_key.key()) {
            Some(properties) => *properties,
            None => ImageProperties {
                descriptor: ImageDescriptor { width: 0, height: 0, is_opaque: false },
                tiling: None,
            },
        }
    }

    /// Notes that what was not used in frame `frame_id` may go.
    pub fn expire_old_resources(&mut self, frame_id: FrameId)
        ensures
            final(self).expired_up_to == Some(frame_id),
            final(self).image_templates == old(self).image_templates,
    {
        self.expired_up_to = Some(frame_id);
    }
}

} // verus!
