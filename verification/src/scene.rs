//! The scene that a frame is built from: for each pipeline its display
//! list with the payload that goes with it, and the values of the animated
//! properties.

use crate::clip_scroll_tree::ResolvedTransform;
use crate::display_list::{
    display_list_fits, spec_display_list_fits, AmountBinding, AuxiliaryLists, Color, DisplayItem,
    Epoch, PipelineId, PropertyBindingKey, TransformBinding, TransformId,
};
use crate::geometry::LayerSize;
use std::collections::HashMap;
use vstd::prelude::*;
use vstd::std_specs::hash::spec_keys_iter;
use vstd::std_specs::iter::IteratorSpec;

verus! {

broadcast use vstd::std_specs::hash::group_hash_axioms;

#[derive(Clone, Copy, Debug, PartialEq, Eq, Structural)]
pub struct ScenePipeline {
    pub pipeline_id: PipelineId,
    pub epoch: Epoch,
    pub viewport_size: LayerSize,
    pub background_color: Option<Color>,
}

/// The values that animated properties have at present, by the number of
/// their key.
pub struct SceneProperties {
    pub transform_properties: HashMap<u64, TransformId>,
    pub float_properties: HashMap<u64, i32>,
}

/// All maps are keyed by `PipelineId::key`.
pub struct Scene {
    pub root_pipeline_id: Option<PipelineId>,
    pub pipeline_map: HashMap<u64, ScenePipeline>,
    pub display_lists: HashMap<u64, Vec<DisplayItem>>,
    pub pipeline_auxiliary_lists: HashMap<u64, AuxiliaryLists>,
    pub properties: SceneProperties,
}

impl SceneProperties {
    pub fn new() -> (properties: SceneProperties)
        ensures
            properties.transform_properties@ == Map::<u64, TransformId>::empty(),
            properties.float_properties@ == Map::<u64, i32>::empty(),
    {
        SceneProperties { transform_properties: HashMap::new(), float_properties: HashMap::new() }
    }

    /// Gives the animated amount `key` a value.
    pub fn set_float(&mut self, key: PropertyBindingKey, value: i32)
        ensures
            final(self).float_properties@ == old(self).float_properties@.insert(key.0, value),
            final(self).transform_properties == old(self).transform_properties,
    {
        let _ = self.float_properties.insert(key.0, value);
    }

    /// Gives the animated matrix `key` a value.
    pub fn set_transform(&mut self, key: PropertyBindingKey, value: TransformId)
        ensures
            final(self).transform_properties@ == old(self).transform_properties@.insert(
                key.0,
                value,
            ),
            final(self).float_properties == old(self).float_properties,
    {
        let _ = self.transform_properties.insert(key.0, value);
    }

    /// The amount that `binding` stands for: what it gives, or the value
    /// that its property has, or `default_value` if the property has none.
    pub open spec fn spec_resolve_float(&self, binding: AmountBinding, default_value: i32) -> i32 {
        match binding {
            AmountBinding::Value(value) => value,
            AmountBinding::Binding(key) => if self.float_properties@.contains_key(key.0) {
                self.float_properties@[key.0]
            } else {
                default_value
            },
        }
    }

    pub fn resolve_float(&self, binding: &AmountBinding, default_value: i32) -> (value: i32)
        ensures
            value == self.spec_resolve_float(*binding, default_value),
    {
        match *binding {
            AmountBinding::Value(value) => value,
            AmountBinding::Binding(key) => match self.float_properties.get(&key.0) {
                Some(value) => *value,
                None => default_value,
            },
        }
    }

    /// The matrix that `binding` stands for: what it gives, or the value
    /// that its property has; the identity if there is no binding or the
    /// property has no value.
    pub open spec fn spec_resolve_layout_transform(
        &self,
        binding: Option<TransformBinding>,
    ) -> ResolvedTransform {
        match binding {
            None => ResolvedTransform::Identity,
            Some(TransformBinding::Value(id)) => ResolvedTransform::Matrix(id),
            Some(TransformBinding::Binding(key)) => if self.transform_properties@.contains_key(
                key.0,
            ) {
                ResolvedTransform::Matrix(self.transform_properties@[key.0])
            } else {
                ResolvedTransform::Identity
            },
        }
    }

    pub fn resolve_layout_transform(&self, binding: Option<&TransformBinding>) -> (transform:
        ResolvedTransform)
        ensures
            transform == self.spec_resolve_layout_transform(
                match binding {
                    Some(b) => Some(*b),
                    None => None,
                },
            ),
    {
        match binding {
            None => ResolvedTransform::Identity,
            Some(binding) => match *binding {
                TransformBinding::Value(id) => ResolvedTransform::Matrix(id),
                TransformBinding::Binding(key) => match self.transform_properties.get(&key.0) {
                    Some(id) => ResolvedTransform::Matrix(*id),
                    None => ResolvedTransform::Identity,
                },
            },
        }
    }
}

impl Scene {
    /// Whether every display list of the scene comes with its payload, and
    /// reads only ranges that lie inside it.
    pub open spec fn spec_well_formed(&self) -> bool {
        forall|k: u64| #[trigger]
            self.display_lists@.contains_key(k) ==> self.pipeline_auxiliary_lists@.contains_key(k)
                && spec_display_list_fits(
                self.display_lists@[k]@,
                self.pipeline_auxiliary_lists@[k],
            )
    }

    /// Whether the display list that is kept under `key` comes with its
    /// payload and fits it.
    pub open spec fn spec_list_fits(&self, key: u64) -> bool {
        self.pipeline_auxiliary_lists@.contains_key(key) && spec_display_list_fits(
            self.display_lists@[key]@,
            self.pipeline_auxiliary_lists@[key],
        )
    }

    /// Checks whether every display list of the scene comes with its
    /// payload and reads only ranges that lie inside it.
    pub fn is_well_formed(&self) -> (ok: bool)
        ensures
            ok == self.spec_well_formed(),
    {
        let mut ok = true;
        let ghost keys = spec_keys_iter(&self.display_lists).remaining();
        for key in iter: self.display_lists.keys()
            invariant
                iter.seq() == keys,
                keys.unref().to_set() == self.display_lists@.dom(),
                ok == (forall|i: int|
                    0 <= i < iter.index() ==> self.spec_list_fits(*(#[trigger] keys[i]))),
        {
            let fits = match (self.display_lists.get(key), self.pipeline_auxiliary_lists.get(key)) {
                (Some(list), Some(lists)) => display_list_fits(list, lists),
                _ => false,
            };
            if !fits {
                ok = false;
            }
        }
        proof {
            if ok {
                assert forall|k: u64| #[trigger]
                    self.display_lists@.contains_key(k) implies self.spec_list_fits(k) by {
                    let i = choose|i: int| 0 <= i < keys.unref().len() && keys.unref()[i] == k;
                }
            } else {
                let i = choose|i: int|
                    0 <= i < keys.len() && !self.spec_list_fits(*(#[trigger] keys[i]));
                assert(keys.unref()[i] == *keys[i]);
                assert(keys.unref().to_set().contains(*keys[i]));
            }
        }
        ok
    }

    /// What the scene knows of `pipeline_id`.
    pub open spec fn spec_pipeline(&self, pipeline_id: PipelineId) -> Option<ScenePipeline> {
        if self.pipeline_map@.contains_key(pipeline_id.spec_key()) {
            Some(self.pipeline_map@[pipeline_id.spec_key()])
        } else {
            None
        }
    }

    /// The display list of `pipeline_id`.
    pub open spec fn spec_display_list(&self, pipeline_id: PipelineId) -> Option<Seq<DisplayItem>> {
        if self.display_lists@.contains_key(pipeline_id.spec_key()) {
            Some(self.display_lists@[pipeline_id.spec_key()]@)
        } else {
            None
        }
    }

    /// The scene without any pipeline.
    pub fn new() -> (scene: Scene)
        ensures
            scene.root_pipeline_id is None,
            scene.pipeline_map@ == Map::<u64, ScenePipeline>::empty(),
            scene.display_lists@ == Map::<u64, Vec<DisplayItem>>::empty(),
            scene.pipeline_auxiliary_lists@ == Map::<u64, AuxiliaryLists>::empty(),
            scene.properties.transform_properties@ == Map::<u64, TransformId>::empty(),
            scene.properties.float_properties@ == Map::<u64, i32>::empty(),
            scene.spec_well_formed(),
    {
        Scene {
            root_pipeline_id: None,
            pipeline_map: HashMap::new(),
            display_lists: HashMap::new(),
            pipeline_auxiliary_lists: HashMap::new(),
            properties: SceneProperties::new(),
        }
    }

    pub fn set_root_pipeline_id(&mut self, pipeline_id: PipelineId)
        ensures
            final(self).root_pipeline_id == Some(pipeline_id),
            final(self).pipeline_map == old(self).pipeline_map,
            final(self).display_lists == old(self).display_lists,
            final(self).pipeline_auxiliary_lists == old(self).pipeline_auxiliary_lists,
            final(self).properties == old(self).properties,
    {
        self.root_pipeline_id = Some(pipeline_id);
    }

    /// Gives `pipeline_id` a display list with its payload, replacing what
    /// it had. A scene that is well formed stays so if the list fits the
    /// payload.
    pub fn set_display_list(
        &mut self,
        pipeline_id: PipelineId,
        epoch: Epoch,
        display_list: Vec<DisplayItem>,
        background_color: Option<Color>,
        viewport_size: LayerSize,
        auxiliary_lists: AuxiliaryLists,
    )
        ensures
            old(self).spec_well_formed() && spec_display_list_fits(display_list@, auxiliary_lists)
                ==> final(self).spec_well_formed(),
            final(self).root_pipeline_id == old(self).root_pipeline_id,
            final(self).properties == old(self).properties,
            final(self).pipeline_map@ == old(self).pipeline_map@.insert(
                pipeline_id.spec_key(),
                ScenePipeline { pipeline_id, epoch, viewport_size, background_color },
            ),
            final(self).display_lists@ == old(self).display_lists@.insert(
                pipeline_id.spec_key(),
                display_list,
            ),
            final(self).pipeline_auxiliary_lists@ == old(self).pipeline_auxiliary_lists@.insert(
                pipeline_id.spec_key(),
                auxiliary_lists,
            ),
    {
        let key = pipeline_id.key();
        let _ = self.pipeline_auxiliary_lists.insert(key, auxiliary_lists);
        let _ = self.display_lists.insert(key, display_list);
        let _ = self.pipeline_map.insert(
            key,
            ScenePipeline { pipeline_id, epoch, viewport_size, background_color },
        );
    }
}

} // verus!
