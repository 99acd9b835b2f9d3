//! The frame: the owner of the clip-scroll tree and of what is being built.

use crate::clip::clip_intersection;
use crate::clip_scroll_tree::{
    spec_collect_states, spec_finalize_node, spec_has_node, spec_scroll_nodes, ClipScrollNode,
    ClipScrollTree, DeviceUintRect, DeviceUintSize, NodeKind, ReferenceFrameTransform,
    ResolvedTransform, ScrollLayerState, ViewportSetup,
};
use crate::display_list::{
    spec_starting_stacking_context, starting_stacking_context, AuxiliaryLists, ClipDisplayItem,
    ClipRegion, Color, DisplayItem, Epoch, PipelineId, ScrollLayerId, ScrollPolicy,
    SpecificDisplayItem, StackingContext,
};
use crate::flatten::{
    lemma_depth_suffices_for_stacking_context, lemma_pipeline_of_its_key,
    lemma_stacking_context_ends_at_its_pop, lemma_stacking_context_grows_state,
    lemma_stacking_context_is_balanced, lemma_stacking_context_records_epochs,
    lemma_well_formed_stacking_context_can_be_flattened, spec_flatten_clip, spec_flatten_iframe,
    spec_flatten_items, spec_flatten_stacking_context, spec_iframe_can_be_flattened,
    spec_item_can_be_drawn, spec_item_primitives, spec_items_can_be_flattened,
    spec_open_stacking_context, spec_open_stacking_contexts,
    spec_pipelines_shown_in_stacking_context, spec_ranks_iframes, spec_scene_gives_epoch,
    spec_solid_rectangles, spec_stacking_context_can_be_flattened, spec_with_replacement,
    FlattenEnv, FlattenState, SCROLLBAR_HEIGHT, SCROLLBAR_RADIUS, SCROLLBAR_WIDTH,
};
use crate::frame_builder::{
    spec_clip_node, spec_identity_transform, spec_solid_rectangle, BuiltFrame, CompositeOps,
    FrameBuilder, FrameBuilderConfig, FrameBuilderView, PrimitiveFlags,
};
use crate::geometry::{subtract_rect, LayerPoint, LayerRect, LayerSize};
use crate::image_tiling::{decompose_image, TiledImage};
use crate::resource_cache::ResourceCache;
use crate::scene::{Scene, ScenePipeline};
use crate::traversal::{lemma_skip_end_bounds, DisplayListTraversal};
use std::collections::HashMap;
use vstd::prelude::*;

verus! {

broadcast use vstd::std_specs::hash::group_hash_axioms;

/// Counts the frames that were begun. A later frame has the larger number.
#[derive(Clone, Copy, Debug, PartialEq, Eq, PartialOrd, Structural)]
pub struct FrameId(pub u32);

/// What one flattening works with: the scene it reads, the builder it
/// fills, the cache it asks about images, and the stack of redirects for
/// what is fixed in place.
pub struct FlattenContext<'a> {
    pub scene: &'a Scene,
    pub builder: FrameBuilder,
    pub resource_cache: &'a ResourceCache,
    pub replacements: Vec<(ScrollLayerId, ScrollLayerId)>,
}

/// What a build hands to the renderer: the epochs of the pipelines that the
/// frame was made from, the nodes that are springing back from beyond
/// their range, and the frame itself if one has been created.
pub struct RendererFrame {
    pub pipeline_epoch_map: HashMap<u64, Epoch>,
    pub layers_bouncing_back: Vec<ScrollLayerId>,
    pub frame: Option<BuiltFrame>,
}

/// The root of a scene: its pipeline, the display list of the pipeline,
/// and the stacking context that the list opens with.
pub ghost struct SceneRoot {
    pub pipeline_id: PipelineId,
    pub pipeline: ScenePipeline,
    pub list: Seq<DisplayItem>,
    pub stacking_context: StackingContext,
    pub bounds: LayerRect,
}

/// The root that a frame for a window of `window_size` is created from.
/// There is none if the scene names no root pipeline, does not know the one
/// it names or has no display list for it, if the window has no width or no
/// height, or if the display list does not start with a stacking context.
pub open spec fn spec_scene_root(scene: Scene, window_size: DeviceUintSize) -> Option<SceneRoot> {
    match scene.root_pipeline_id {
        Some(pipeline_id) => match (
            scene.spec_pipeline(pipeline_id),
            scene.spec_display_list(pipeline_id),
        ) {
            (Some(pipeline), Some(list)) => if window_size.width == 0 || window_size.height == 0 {
                None
            } else {
                match spec_starting_stacking_context(list) {
                    Some((stacking_context, bounds)) => Some(
                        SceneRoot { pipeline_id, pipeline, list, stacking_context, bounds },
                    ),
                    None => None,
                }
            },
            _ => None,
        },
        None => None,
    }
}

/// The colour that a frame is cleared to: the background of the root
/// pipeline, unless that is fully transparent.
pub open spec fn spec_clear_color(color: Option<Color>) -> Option<Color> {
    match color {
        Some(color) => if color.a > 0 {
            Some(color)
        } else {
            None
        },
        None => None,
    }
}

/// The state that the flattening of a scene starts in: nothing drawn, the
/// two root nodes in the tree, the root reference frame current, and the
/// epoch of the root pipeline recorded.
pub open spec fn spec_initial_state(
    root: SceneRoot,
    window_size: DeviceUintSize,
    config: FrameBuilderConfig,
) -> FlattenState {
    let viewport_rect = LayerRect {
        origin: LayerPoint { x: 0, y: 0 },
        size: root.pipeline.viewport_size,
    };
    let frame_id = ScrollLayerId::ReferenceFrame(0, root.pipeline_id);
    FlattenState {
        builder: FrameBuilderView {
            screen_size: window_size,
            background_color: spec_clear_color(root.pipeline.background_color),
            config,
            commands: Seq::empty(),
            filter_ops: Seq::empty(),
            reference_frames: seq![frame_id],
        },
        nodes: seq![
            ClipScrollNode {
                id: frame_id,
                parent: None,
                pipeline_id: root.pipeline_id,
                local_viewport_rect: viewport_rect,
                kind: NodeKind::ReferenceFrame(spec_identity_transform()),
                scroll_offset: LayerPoint { x: 0, y: 0 },
            },
            spec_clip_node(
                ScrollLayerId::spec_root_scroll_layer(root.pipeline_id),
                frame_id,
                root.pipeline_id,
                viewport_rect,
                root.bounds.size,
                ClipRegion::spec_simple(viewport_rect),
            ),
        ],
        replacements: Seq::empty(),
        epochs: Map::<u64, Epoch>::empty().insert(
            root.pipeline_id.spec_key(),
            root.pipeline.epoch,
        ),
    }
}

/// What the flattening of a scene from its root reads.
pub open spec fn spec_scene_env(
    scene: Scene,
    resource_cache: ResourceCache,
    root: SceneRoot,
    config: FrameBuilderConfig,
) -> FlattenEnv {
    FlattenEnv {
        scene,
        resource_cache,
        auxiliary_lists: scene.pipeline_auxiliary_lists@,
        enable_scrollbars: config.enable_scrollbars,
        topmost_scroll_layer_id: ScrollLayerId::spec_root_scroll_layer(root.pipeline_id),
    }
}

/// Whether a frame can be created from a scene: if the scene has a root to
/// create a frame from, what flattening visits from there can be flattened.
pub open spec fn spec_scene_can_be_flattened(
    scene: Scene,
    resource_cache: ResourceCache,
    window_size: DeviceUintSize,
    config: FrameBuilderConfig,
) -> bool {
    match spec_scene_root(scene, window_size) {
        Some(root) => spec_stacking_context_can_be_flattened(
            spec_scene_env(scene, resource_cache, root, config),
            root.list,
            1,
            root.pipeline_id,
            root.stacking_context,
            scene.display_lists@.len(),
        ),
        None => true,
    }
}

/// A frame can be created from every scene that is well formed, with every
/// cache that is.
pub proof fn lemma_well_formed_scene_can_be_flattened(
    scene: Scene,
    resource_cache: ResourceCache,
    window_size: DeviceUintSize,
    config: FrameBuilderConfig,
)
    requires
        scene.spec_well_formed(),
        resource_cache.spec_well_formed(),
    ensures
        spec_scene_can_be_flattened(scene, resource_cache, window_size, config),
{
    match spec_scene_root(scene, window_size) {
        Some(root) => {
            let env = spec_scene_env(scene, resource_cache, root, config);
            lemma_well_formed_stacking_context_can_be_flattened(
                env,
                root.list,
                1,
                root.pipeline_id,
                root.stacking_context,
                scene.display_lists@.len(),
            );
        },
        None => {},
    }
}

/// What the flattening of a scene from its root yields.
pub open spec fn spec_flatten_scene(
    scene: Scene,
    resource_cache: ResourceCache,
    root: SceneRoot,
    window_size: DeviceUintSize,
    config: FrameBuilderConfig,
) -> FlattenState {
    spec_flatten_stacking_context(
        spec_scene_env(scene, resource_cache, root, config),
        spec_initial_state(root, window_size, config),
        root.list,
        1,
        root.pipeline_id,
        ScrollLayerId::spec_root_scroll_layer(root.pipeline_id),
        LayerPoint { x: 0, y: 0 },
        true,
        root.bounds,
        root.stacking_context,
        scene.display_lists@.len(),
    ).0
}

/// Whatever a scene holds, the frame that it is flattened to is closed:
/// every stacking context that was opened has been closed, no redirect is
/// left on the stack, the root reference frame alone is current, the two
/// root nodes stand first in the tree, and the epoch of the root pipeline
/// is recorded.
pub proof fn lemma_flattened_scene_is_closed(
    scene: Scene,
    resource_cache: ResourceCache,
    root: SceneRoot,
    window_size: DeviceUintSize,
    config: FrameBuilderConfig,
)
    ensures
        ({
            let initial = spec_initial_state(root, window_size, config);
            let flattened = spec_flatten_scene(scene, resource_cache, root, window_size, config);
            &&& spec_open_stacking_contexts(flattened.builder.commands) == 0
            &&& flattened.replacements.len() == 0
            &&& flattened.builder.reference_frames == seq![
                ScrollLayerId::ReferenceFrame(0, root.pipeline_id),
            ]
            &&& flattened.builder.screen_size == window_size
            &&& flattened.builder.background_color == spec_clear_color(
                root.pipeline.background_color,
            )
            &&& flattened.nodes.len() >= 2
            &&& flattened.nodes[0] == initial.nodes[0]
            &&& flattened.nodes[1] == initial.nodes[1]
            &&& flattened.epochs.contains_key(root.pipeline_id.spec_key())
        }),
{
    let env = spec_scene_env(scene, resource_cache, root, config);
    let initial = spec_initial_state(root, window_size, config);
    lemma_stacking_context_grows_state(
        env,
        initial,
        root.list,
        1,
        root.pipeline_id,
        ScrollLayerId::spec_root_scroll_layer(root.pipeline_id),
        LayerPoint { x: 0, y: 0 },
        true,
        root.bounds,
        root.stacking_context,
        scene.display_lists@.len(),
    );
    lemma_stacking_context_is_balanced(
        env,
        initial,
        root.list,
        1,
        root.pipeline_id,
        ScrollLayerId::spec_root_scroll_layer(root.pipeline_id),
        LayerPoint { x: 0, y: 0 },
        true,
        root.bounds,
        root.stacking_context,
        scene.display_lists@.len(),
    );
}

/// The frame that a scene is flattened to records the epochs of the root
/// pipeline and of the pipelines that iframes show, as far as they are
/// followed, and of no other: each as the scene gives it, whatever the frame
/// held before.
pub proof fn lemma_flattened_scene_records_what_is_shown(
    scene: Scene,
    resource_cache: ResourceCache,
    root: SceneRoot,
    window_size: DeviceUintSize,
    config: FrameBuilderConfig,
)
    requires
        spec_scene_root(scene, window_size) == Some(root),
    ensures
        ({
            let flattened = spec_flatten_scene(scene, resource_cache, root, window_size, config);
            &&& flattened.epochs.dom() == spec_pipelines_shown_in_stacking_context(
                spec_scene_env(scene, resource_cache, root, config),
                root.list,
                1,
                root.pipeline_id,
                root.stacking_context,
                scene.display_lists@.len(),
            ).insert(root.pipeline_id.spec_key())
            &&& flattened.epochs[root.pipeline_id.spec_key()] == root.pipeline.epoch
            &&& forall|key: u64| #[trigger]
                flattened.epochs.contains_key(key) ==> spec_scene_gives_epoch(
                    scene,
                    key,
                    flattened.epochs[key],
                )
        }),
{
    let env = spec_scene_env(scene, resource_cache, root, config);
    let initial = spec_initial_state(root, window_size, config);
    let flattened = spec_flatten_scene(scene, resource_cache, root, window_size, config);
    let shown = spec_pipelines_shown_in_stacking_context(
        env,
        root.list,
        1,
        root.pipeline_id,
        root.stacking_context,
        scene.display_lists@.len(),
    );
    lemma_stacking_context_records_epochs(
        env,
        initial,
        root.list,
        1,
        root.pipeline_id,
        ScrollLayerId::spec_root_scroll_layer(root.pipeline_id),
        LayerPoint { x: 0, y: 0 },
        true,
        root.bounds,
        root.stacking_context,
        scene.display_lists@.len(),
    );
    lemma_pipeline_of_its_key(root.pipeline_id);
    assert(spec_scene_gives_epoch(scene, root.pipeline_id.spec_key(), root.pipeline.epoch));
    assert(initial.epochs.dom() =~= Set::<u64>::empty().insert(root.pipeline_id.spec_key()));
    assert(flattened.epochs.dom() =~= shown.insert(root.pipeline_id.spec_key()));
    assert(flattened.epochs.contains_key(root.pipeline_id.spec_key()));
}

/// In a scene in which no pipeline shows itself, the limit on the depth of
/// iframes cuts nothing off: where the pipelines can be ranked so that each
/// shows only pipelines of lower rank, and the rank of the root is no more
/// than the number of display lists, following iframes deeper than that
/// number yields the same frame.
pub proof fn lemma_depth_limit_cuts_nothing_off(
    scene: Scene,
    resource_cache: ResourceCache,
    root: SceneRoot,
    window_size: DeviceUintSize,
    config: FrameBuilderConfig,
    rank: spec_fn(PipelineId) -> nat,
    deeper: nat,
)
    requires
        spec_scene_root(scene, window_size) == Some(root),
        spec_ranks_iframes(scene, rank),
        rank(root.pipeline_id) <= scene.display_lists@.len() <= deeper,
    ensures
        spec_flatten_scene(scene, resource_cache, root, window_size, config)
            == spec_flatten_stacking_context(
            spec_scene_env(scene, resource_cache, root, config),
            spec_initial_state(root, window_size, config),
            root.list,
            1,
            root.pipeline_id,
            ScrollLayerId::spec_root_scroll_layer(root.pipeline_id),
            LayerPoint { x: 0, y: 0 },
            true,
            root.bounds,
            root.stacking_context,
            deeper,
        ).0,
{
    lemma_depth_suffices_for_stacking_context(
        spec_scene_env(scene, resource_cache, root, config),
        spec_initial_state(root, window_size, config),
        root.list,
        1,
        root.pipeline_id,
        ScrollLayerId::spec_root_scroll_layer(root.pipeline_id),
        LayerPoint { x: 0, y: 0 },
        true,
        root.bounds,
        root.stacking_context,
        rank,
        scene.display_lists@.len(),
        scene.display_lists@.len(),
        deeper,
    );
}

/// Checks whether the stacking context that is open at `cursor` can be
/// flattened.
fn stacking_context_can_be_flattened(
    scene: &Scene,
    resource_cache: &ResourceCache,
    list: &Vec<DisplayItem>,
    cursor: usize,
    pipeline_id: PipelineId,
    stacking_context: &StackingContext,
    depth: usize,
    Ghost(env): Ghost<FlattenEnv>,
) -> (ok: bool)
    requires
        env.scene == *scene,
        env.resource_cache == *resource_cache,
        env.auxiliary_lists == scene.pipeline_auxiliary_lists@,
    ensures
        ok == spec_stacking_context_can_be_flattened(
            env,
            list@,
            cursor as int,
            pipeline_id,
            *stacking_context,
            depth as nat,
        ),
    decreases depth, list@.len() - cursor, 1int,
{
    if cursor >= list.len() {
        return true;
    }
    match list[cursor].item {
        SpecificDisplayItem::PopStackingContext => {
            return true;
        },
        _ => {},
    }
    let auxiliary_lists = match scene.pipeline_auxiliary_lists.get(&pipeline_id.key()) {
        Some(auxiliary_lists) => auxiliary_lists,
        None => return false,
    };
    if !stacking_context.filters.fits(auxiliary_lists.filters.len()) {
        return false;
    }
    let composition_operations = CompositeOps::new(
        stacking_context.filter_ops_for_compositing(auxiliary_lists, &scene.properties),
        stacking_context.mix_blend_mode_for_compositing(),
    );
    if composition_operations.will_make_invisible() {
        return true;
    }
    items_can_be_flattened(scene, resource_cache, list, cursor, pipeline_id, depth, Ghost(env))
}

/// Checks whether the items from `cursor` on can be flattened.
fn items_can_be_flattened(
    scene: &Scene,
    resource_cache: &ResourceCache,
    list: &Vec<DisplayItem>,
    cursor: usize,
    pipeline_id: PipelineId,
    depth: usize,
    Ghost(env): Ghost<FlattenEnv>,
) -> (ok: bool)
    requires
        env.scene == *scene,
        env.resource_cache == *resource_cache,
        env.auxiliary_lists == scene.pipeline_auxiliary_lists@,
    ensures
        ok == spec_items_can_be_flattened(env, list@, cursor as int, pipeline_id, depth as nat),
    decreases depth, list@.len() - cursor, 0int,
{
    let mut at = cursor;
    while at < list.len()
        invariant
            env.scene == *scene,
            env.resource_cache == *resource_cache,
            env.auxiliary_lists == scene.pipeline_auxiliary_lists@,
            cursor <= at,
            spec_items_can_be_flattened(env, list@, cursor as int, pipeline_id, depth as nat)
                == spec_items_can_be_flattened(env, list@, at as int, pipeline_id, depth as nat),
        decreases list.len() - at,
    {
        let item = &list[at];
        match item.item {
            SpecificDisplayItem::PopStackingContext => {
                return true;
            },
            SpecificDisplayItem::PushStackingContext(info) => {
                if !stacking_context_can_be_flattened(
                    scene,
                    resource_cache,
                    list,
                    at + 1,
                    pipeline_id,
                    &info.stacking_context,
                    depth,
                    Ghost(env),
                ) {
                    return false;
                }
                let mut traversal = DisplayListTraversal { display_list: list, next_item_index: at + 1 };
                traversal.skip_current_stacking_context();
                proof {
                    lemma_skip_end_bounds(list@, at + 1, 0);
                }
                at = traversal.next_item_index;
            },
            SpecificDisplayItem::Iframe(info) => {
                if !iframe_can_be_flattened(
                    scene,
                    resource_cache,
                    info.pipeline_id,
                    depth,
                    Ghost(env),
                ) {
                    return false;
                }
                at += 1;
            },
            SpecificDisplayItem::Rectangle(_) => {
                match scene.pipeline_auxiliary_lists.get(&pipeline_id.key()) {
                    Some(auxiliary_lists) => {
                        if item.clip.image_mask.is_none() && !item.clip.complex.fits(
                            auxiliary_lists.complex_clip_regions.len(),
                        ) {
                            return false;
                        }
                    },
                    None => {
                        return false;
                    },
                }
                at += 1;
            },
            SpecificDisplayItem::Image(info) => {
                match resource_cache.get_image_properties(info.image_key).tile_size_if_larger() {
                    Some(tile_size) => {
                        if tile_size == 0 {
                            return false;
                        }
                    },
                    None => {},
                }
                at += 1;
            },
            _ => {
                at += 1;
            },
        }
    }
    true
}

/// Checks whether the pipeline that an iframe shows can be flattened.
fn iframe_can_be_flattened(
    scene: &Scene,
    resource_cache: &ResourceCache,
    pipeline_id: PipelineId,
    depth: usize,
    Ghost(env): Ghost<FlattenEnv>,
) -> (ok: bool)
    requires
        env.scene == *scene,
        env.resource_cache == *resource_cache,
        env.auxiliary_lists == scene.pipeline_auxiliary_lists@,
    ensures
        ok == spec_iframe_can_be_flattened(env, pipeline_id, depth as nat),
    decreases depth, 0int, 0int,
{
    if scene.pipeline_map.get(&pipeline_id.key()).is_none() {
        return true;
    }
    let display_list = match scene.display_lists.get(&pipeline_id.key()) {
        Some(display_list) => display_list,
        None => return true,
    };
    let (stacking_context, _) = match starting_stacking_context(display_list) {
        Some(some) => some,
        None => return true,
    };
    if depth == 0 {
        return true;
    }
    stacking_context_can_be_flattened(
        scene,
        resource_cache,
        display_list,
        1,
        pipeline_id,
        &stacking_context,
        depth - 1,
        Ghost(env),
    )
}

/// All maps are keyed by `PipelineId::key`.
pub struct Frame {
    pub clip_scroll_tree: ClipScrollTree,
    pub pipeline_epoch_map: HashMap<u64, Epoch>,
    pub pipeline_auxiliary_lists: HashMap<u64, AuxiliaryLists>,
    pub id: FrameId,
    pub frame_builder_config: FrameBuilderConfig,
    pub frame_builder: Option<FrameBuilder>,
}

impl<'a> FlattenContext<'a> {
    pub fn new(scene: &'a Scene, builder: FrameBuilder, resource_cache: &'a ResourceCache) -> (context:
        FlattenContext<'a>)
        ensures
            context.scene == scene,
            context.builder == builder,
            context.resource_cache == resource_cache,
            context.replacements@.len() == 0,
    {
        FlattenContext { scene, builder, resource_cache, replacements: Vec::new() }
    }

    /// The node that stands for `id`: the redirect that was pushed last, if
    /// it is one for just this name; else `id` itself.
    pub fn scroll_layer_id_with_replacement(&self, id: ScrollLayerId) -> (resolved: ScrollLayerId)
        ensures
            resolved == spec_with_replacement(self.replacements@, id),
    {
        let len = self.replacements.len();
        if len > 0 {
            let (to_replace, replacement) = self.replacements[len - 1];
            if to_replace == id {
                return replacement;
            }
        }
        id
    }
}

impl Frame {
    /// A frame of which nothing has been created yet.
    pub fn new(config: FrameBuilderConfig) -> (frame: Frame)
        ensures
            frame.id == FrameId(0),
            frame.frame_builder is None,
            frame.frame_builder_config == config,
            frame.pipeline_epoch_map@ == Map::<u64, Epoch>::empty(),
            frame.pipeline_auxiliary_lists@ == Map::<u64, AuxiliaryLists>::empty(),
            frame.clip_scroll_tree.nodes@.len() == 0,
            frame.clip_scroll_tree.pending_scroll_offsets@.len() == 0,
            frame.clip_scroll_tree.pipelines_to_discard@.len() == 0,
    {
        Frame {
            pipeline_epoch_map: HashMap::new(),
            pipeline_auxiliary_lists: HashMap::new(),
            clip_scroll_tree: ClipScrollTree::new(),
            id: FrameId(0),
            frame_builder: None,
            frame_builder_config: config,
        }
    }

    /// Begins the next frame: forgets the epochs, counts the frame, and
    /// empties the tree, handing out the scroll offsets that its nodes had.
    pub fn reset(&mut self) -> (states: Vec<ScrollLayerState>)
        requires
            old(self).id.0 < u32::MAX,
        ensures
            final(self).id == FrameId((old(self).id.0 + 1) as u32),
            final(self).pipeline_epoch_map@ == Map::<u64, Epoch>::empty(),
            states@ == spec_collect_states(
                old(self).clip_scroll_tree.nodes@,
                old(self).clip_scroll_tree.pipelines_to_discard@,
                old(self).clip_scroll_tree.nodes@.len() as int,
            ),
            final(self).clip_scroll_tree.nodes@.len() == 0,
            final(self).clip_scroll_tree.pipelines_to_discard@.len() == 0,
            final(self).clip_scroll_tree.pending_scroll_offsets
                == old(self).clip_scroll_tree.pending_scroll_offsets,
            final(self).clip_scroll_tree.root_reference_frame_id
                == old(self).clip_scroll_tree.root_reference_frame_id,
            final(self).clip_scroll_tree.topmost_scroll_layer_id
                == old(self).clip_scroll_tree.topmost_scroll_layer_id,
            final(self).clip_scroll_tree.viewport == old(self).clip_scroll_tree.viewport,
            final(self).clip_scroll_tree.pan == old(self).clip_scroll_tree.pan,
            final(self).pipeline_auxiliary_lists == old(self).pipeline_auxiliary_lists,
            final(self).frame_builder_config == old(self).frame_builder_config,
            final(self).frame_builder == old(self).frame_builder,
    {
        self.pipeline_epoch_map.clear();
        // The frame that begins now is the next one.
        self.id.0 += 1;
        self.clip_scroll_tree.drain()
    }

    /// The scroll offsets of the nodes that scroll.
    pub fn get_scroll_node_state(&self) -> (states: Vec<ScrollLayerState>)
        ensures
            states@ == spec_collect_states(
                self.clip_scroll_tree.nodes@,
                Seq::empty(),
                self.clip_scroll_tree.nodes@.len() as int,
            ),
    {
        self.clip_scroll_tree.get_scroll_node_state()
    }

    /// Requests that the nodes named `id` scroll to `origin`, and says
    /// whether any of them moved. A reference frame does not scroll; a
    /// request for a name that no node has is kept for the next frame.
    pub fn scroll_nodes(&mut self, origin: LayerPoint, id: ScrollLayerId) -> (changed: bool)
        ensures
            final(self).id == old(self).id,
            final(self).pipeline_epoch_map == old(self).pipeline_epoch_map,
            final(self).pipeline_auxiliary_lists == old(self).pipeline_auxiliary_lists,
            final(self).frame_builder_config == old(self).frame_builder_config,
            final(self).frame_builder == old(self).frame_builder,
            final(self).clip_scroll_tree.pipelines_to_discard
                == old(self).clip_scroll_tree.pipelines_to_discard,
            final(self).clip_scroll_tree.root_reference_frame_id
                == old(self).clip_scroll_tree.root_reference_frame_id,
            final(self).clip_scroll_tree.topmost_scroll_layer_id
                == old(self).clip_scroll_tree.topmost_scroll_layer_id,
            final(self).clip_scroll_tree.viewport == old(self).clip_scroll_tree.viewport,
            final(self).clip_scroll_tree.pan == old(self).clip_scroll_tree.pan,
            id is ReferenceFrame ==> !changed && final(self).clip_scroll_tree.nodes@
                == old(self).clip_scroll_tree.nodes@
                    && final(self).clip_scroll_tree.pending_scroll_offsets@
                == old(self).clip_scroll_tree.pending_scroll_offsets@,
            !(id is ReferenceFrame) ==> {
                &&& final(self).clip_scroll_tree.nodes@ == spec_scroll_nodes(
                    old(self).clip_scroll_tree.nodes@,
                    origin,
                    id,
                )
                &&& changed == (final(self).clip_scroll_tree.nodes@
                    != old(self).clip_scroll_tree.nodes@)
                &&& final(self).clip_scroll_tree.pending_scroll_offsets@ == if spec_has_node(
                    old(self).clip_scroll_tree.nodes@,
                    id,
                ) {
                    old(self).clip_scroll_tree.pending_scroll_offsets@
                } else {
                    seq![ScrollLayerState { id, scroll_offset: origin }]
                        + old(self).clip_scroll_tree.pending_scroll_offsets@
                }
            },
    {
        self.clip_scroll_tree.scroll_nodes(origin, id)
    }

    /// Marks the scroll offsets of `pipeline_id` as not to be kept when the
    /// next frame is begun.
    pub fn discard_frame_state_for_pipeline(&mut self, pipeline_id: PipelineId)
        ensures
            final(self).clip_scroll_tree.pipelines_to_discard@
                == old(self).clip_scroll_tree.pipelines_to_discard@.push(pipeline_id),
            final(self).clip_scroll_tree.nodes == old(self).clip_scroll_tree.nodes,
            final(self).clip_scroll_tree.pending_scroll_offsets
                == old(self).clip_scroll_tree.pending_scroll_offsets,
            final(self).clip_scroll_tree.root_reference_frame_id
                == old(self).clip_scroll_tree.root_reference_frame_id,
            final(self).clip_scroll_tree.topmost_scroll_layer_id
                == old(self).clip_scroll_tree.topmost_scroll_layer_id,
            final(self).clip_scroll_tree.viewport == old(self).clip_scroll_tree.viewport,
            final(self).clip_scroll_tree.pan == old(self).clip_scroll_tree.pan,
            final(self).id == old(self).id,
            final(self).pipeline_epoch_map == old(self).pipeline_epoch_map,
            final(self).pipeline_auxiliary_lists == old(self).pipeline_auxiliary_lists,
            final(self).frame_builder_config == old(self).frame_builder_config,
            final(self).frame_builder == old(self).frame_builder,
    {
        self.clip_scroll_tree.discard_frame_state_for_pipeline(pipeline_id);
    }

    /// Whether this frame is what `before` becomes when it is created anew
    /// from `scene`.
    ///
    /// Where the scene has no root to create a frame from, it is `before`
    /// itself. Else it is the next frame; it holds the payload of the scene,
    /// the epochs of the pipelines that flattening reached, and a builder of
    /// its own with what flattening drew; its tree holds the nodes that
    /// flattening added, each with the scroll offset that a node of its
    /// name had in `before` and with what was requested of it since; and the
    /// window is noted in the tree.
    pub open spec fn spec_created_from(
        &self,
        before: &Frame,
        scene: Scene,
        resource_cache: ResourceCache,
        window_size: DeviceUintSize,
        inner_rect: DeviceUintRect,
        device_pixel_ratio: u32,
    ) -> bool {
        match spec_scene_root(scene, window_size) {
            None => *self == *before,
            Some(root) => {
                let flattened = spec_flatten_scene(
                    scene,
                    resource_cache,
                    root,
                    window_size,
                    before.frame_builder_config,
                );
                &&& self.id == FrameId((before.id.0 + 1) as u32)
                &&& self.frame_builder_config == before.frame_builder_config
                &&& self.pipeline_auxiliary_lists@ == scene.pipeline_auxiliary_lists@
                &&& self.pipeline_epoch_map@ == flattened.epochs
                &&& self.frame_builder matches Some(builder) && builder@ == flattened.builder
                &&& self.clip_scroll_tree.nodes@.len() == flattened.nodes.len()
                &&& forall|i: int|
                    0 <= i < flattened.nodes.len() ==> #[trigger] self.clip_scroll_tree.nodes@[i]
                        == spec_finalize_node(
                        flattened.nodes[i],
                        spec_collect_states(
                            before.clip_scroll_tree.nodes@,
                            before.clip_scroll_tree.pipelines_to_discard@,
                            before.clip_scroll_tree.nodes@.len() as int,
                        ),
                        before.clip_scroll_tree.pending_scroll_offsets@,
                    )
                &&& self.clip_scroll_tree.pending_scroll_offsets@.len() == 0
                &&& self.clip_scroll_tree.pipelines_to_discard@.len() == 0
                &&& self.clip_scroll_tree.root_reference_frame_id == ScrollLayerId::ReferenceFrame(
                    0,
                    root.pipeline_id,
                )
                &&& self.clip_scroll_tree.topmost_scroll_layer_id
                    == ScrollLayerId::spec_root_scroll_layer(root.pipeline_id)
                &&& self.clip_scroll_tree.viewport == Some(
                    ViewportSetup { window_size, inner_rect, device_pixel_ratio },
                )
                &&& self.clip_scroll_tree.pan == before.clip_scroll_tree.pan
            },
        }
    }

    /// Checks whether the frame can be created anew from `scene`: whether
    /// what flattening visits, from the root of the scene on, can be
    /// flattened.
    pub fn can_create(
        &self,
        scene: &Scene,
        resource_cache: &ResourceCache,
        window_size: DeviceUintSize,
    ) -> (ok: bool)
        ensures
            ok == spec_scene_can_be_flattened(
                *scene,
                *resource_cache,
                window_size,
                self.frame_builder_config,
            ),
    {
        let root_pipeline_id = match scene.root_pipeline_id {
            Some(root_pipeline_id) => root_pipeline_id,
            None => return true,
        };
        if scene.pipeline_map.get(&root_pipeline_id.key()).is_none() {
            return true;
        }
        let display_list = match scene.display_lists.get(&root_pipeline_id.key()) {
            Some(display_list) => display_list,
            None => return true,
        };
        if window_size.width == 0 || window_size.height == 0 {
            return true;
        }
        let (root_stacking_context, _) = match starting_stacking_context(display_list) {
            Some(some) => some,
            None => return true,
        };
        let ghost root = spec_scene_root(*scene, window_size)->0;
        stacking_context_can_be_flattened(
            scene,
            resource_cache,
            display_list,
            1,
            root_pipeline_id,
            &root_stacking_context,
            scene.display_lists.len(),
            Ghost(spec_scene_env(*scene, *resource_cache, root, self.frame_builder_config)),
        )
    }

    /// Checks whether `scene` has a root to create a frame from, for a
    /// window of `window_size`.
    fn has_root(scene: &Scene, window_size: DeviceUintSize) -> (yes: bool)
        ensures
            yes == spec_scene_root(*scene, window_size) is Some,
    {
        let root_pipeline_id = match scene.root_pipeline_id {
            Some(root_pipeline_id) => root_pipeline_id,
            None => return false,
        };
        if scene.pipeline_map.get(&root_pipeline_id.key()).is_none() {
            return false;
        }
        let display_list = match scene.display_lists.get(&root_pipeline_id.key()) {
            Some(display_list) => display_list,
            None => return false,
        };
        if window_size.width == 0 || window_size.height == 0 {
            return false;
        }
        starting_stacking_context(display_list).is_some()
    }

    /// Creates the frame anew from `scene` if it can be created, and says
    /// whether it did; if not, nothing changes. It cannot be created if what
    /// flattening visits cannot be flattened, or if the scene has a root
    /// and the frames cannot be counted any further.
    pub fn try_create(
        &mut self,
        scene: &Scene,
        resource_cache: &ResourceCache,
        window_size: DeviceUintSize,
        inner_rect: DeviceUintRect,
        device_pixel_ratio: u32,
    ) -> (created: bool)
        ensures
            created == (spec_scene_can_be_flattened(
                *scene,
                *resource_cache,
                window_size,
                old(self).frame_builder_config,
            ) && (spec_scene_root(*scene, window_size) is Some ==> old(self).id.0 < u32::MAX)),
            created ==> final(self).spec_created_from(
                old(self),
                *scene,
                *resource_cache,
                window_size,
                inner_rect,
                device_pixel_ratio,
            ),
            !created ==> *final(self) == *old(self),
    {
        if self.can_create(scene, resource_cache, window_size) && (self.id.0 < u32::MAX
            || !Self::has_root(scene, window_size)) {
            self.create(scene, resource_cache, window_size, inner_rect, device_pixel_ratio);
            true
        } else {
            false
        }
    }

    /// Creates the frame anew from `scene`, for a window of `window_size`
    /// of which `inner_rect` shows content.
    ///
    /// Where the scene has no root to create a frame from, nothing changes.
    /// Else the next frame is begun; the payload of the scene is taken over;
    /// the scene is flattened from its root into a builder of its own, which
    /// the frame keeps; and the nodes of the tree take up the scroll offsets
    /// that nodes of their names had before.
    pub fn create(
        &mut self,
        scene: &Scene,
        resource_cache: &ResourceCache,
        window_size: DeviceUintSize,
        inner_rect: DeviceUintRect,
        device_pixel_ratio: u32,
    )
        requires
            spec_scene_can_be_flattened(
                *scene,
                *resource_cache,
                window_size,
                old(self).frame_builder_config,
            ),
            spec_scene_root(*scene, window_size) is Some ==> old(self).id.0 < u32::MAX,
        ensures
            final(self).spec_created_from(
                old(self),
                *scene,
                *resource_cache,
                window_size,
                inner_rect,
                device_pixel_ratio,
            ),
    {
        let root_pipeline_id = match scene.root_pipeline_id {
            Some(root_pipeline_id) => root_pipeline_id,
            None => return ,
        };
        let root_pipeline = match scene.pipeline_map.get(&root_pipeline_id.key()) {
            Some(root_pipeline) => root_pipeline,
            None => return ,
        };
        let display_list = match scene.display_lists.get(&root_pipeline_id.key()) {
            Some(display_list) => display_list,
            None => return ,
        };
        if window_size.width == 0 || window_size.height == 0 {
            return ;
        }
        let (root_stacking_context, root_bounds) = match starting_stacking_context(display_list) {
            Some(some) => some,
            None => return ,
        };
        let old_scrolling_states = self.reset();
        self.pipeline_auxiliary_lists = scene.pipeline_auxiliary_lists.clone();
        let _ = self.pipeline_epoch_map.insert(root_pipeline_id.key(), root_pipeline.epoch);
        let background_color = match root_pipeline.background_color {
            Some(color) => if color.a > 0 {
                Some(color)
            } else {
                None
            },
            None => None,
        };
        let frame_builder = FrameBuilder::new(
            window_size,
            background_color,
            self.frame_builder_config,
        );
        let mut context = FlattenContext::new(scene, frame_builder, resource_cache);
        let scroll_layer_id = context.builder.push_root(
            root_pipeline_id,
            &root_pipeline.viewport_size,
            &root_bounds.size,
            &mut self.clip_scroll_tree,
        );
        context.builder.setup_viewport_offset(
            window_size,
            inner_rect,
            device_pixel_ratio,
            &mut self.clip_scroll_tree,
        );
        let mut traversal = DisplayListTraversal::new_skipping_first(display_list);
        proof {
            assert(self.spec_state(&context).replacements =~= Seq::empty());
        }
        self.flatten_stacking_context(
            &mut traversal,
            root_pipeline_id,
            &mut context,
            scroll_layer_id,
            LayerPoint::zero(),
            0,
            &root_bounds,
            &root_stacking_context,
            scene.display_lists.len(),
        );
        self.frame_builder = Some(context.builder);
        self.clip_scroll_tree.finalize_and_apply_pending_scroll_offsets(old_scrolling_states);
    }

    /// Builds what the renderer draws: notes the pan in the tree, has the
    /// builder hand out the frame, and tells the cache that what this frame
    /// did not use may go. The nodes that are springing back are named by
    /// the caller: what moves the nodes beyond their range lies outside
    /// this crate.
    pub fn build(
        &mut self,
        resource_cache: &mut ResourceCache,
        device_pixel_ratio: u32,
        pan: LayerPoint,
        nodes_bouncing_back: Vec<ScrollLayerId>,
    ) -> (frame: RendererFrame)
        ensures
            final(resource_cache).expired_up_to == Some(old(self).id),
            final(resource_cache).image_templates == old(resource_cache).image_templates,
            final(self).clip_scroll_tree.pan == pan,
            final(self).clip_scroll_tree.nodes == old(self).clip_scroll_tree.nodes,
            final(self).clip_scroll_tree.pending_scroll_offsets
                == old(self).clip_scroll_tree.pending_scroll_offsets,
            final(self).clip_scroll_tree.pipelines_to_discard
                == old(self).clip_scroll_tree.pipelines_to_discard,
            final(self).clip_scroll_tree.root_reference_frame_id
                == old(self).clip_scroll_tree.root_reference_frame_id,
            final(self).clip_scroll_tree.topmost_scroll_layer_id
                == old(self).clip_scroll_tree.topmost_scroll_layer_id,
            final(self).clip_scroll_tree.viewport == old(self).clip_scroll_tree.viewport,
            final(self).id == old(self).id,
            final(self).pipeline_epoch_map == old(self).pipeline_epoch_map,
            final(self).pipeline_auxiliary_lists == old(self).pipeline_auxiliary_lists,
            final(self).frame_builder_config == old(self).frame_builder_config,
            final(self).frame_builder == old(self).frame_builder,
            frame.pipeline_epoch_map@ == old(self).pipeline_epoch_map@,
            frame.layers_bouncing_back == nodes_bouncing_back,
            match old(self).frame_builder {
                Some(builder) => frame.frame matches Some(built) && {
                    &&& built.frame_id == old(self).id
                    &&& built.window_size == builder.screen_size
                    &&& built.background_color == builder.background_color
                    &&& built.device_pixel_ratio == device_pixel_ratio
                    &&& built.commands@ == builder.commands@
                    &&& built.filter_ops@ == builder.filter_ops@
                },
                None => frame.frame is None,
            },
    {
        self.clip_scroll_tree.update_all_node_transforms(pan);
        let frame = self.build_frame(device_pixel_ratio, nodes_bouncing_back);
        resource_cache.expire_old_resources(self.id);
        frame
    }

    /// Puts together what a build hands to the renderer.
    pub fn build_frame(
        &self,
        device_pixel_ratio: u32,
        nodes_bouncing_back: Vec<ScrollLayerId>,
    ) -> (frame: RendererFrame)
        ensures
            frame.pipeline_epoch_map@ == self.pipeline_epoch_map@,
            frame.layers_bouncing_back == nodes_bouncing_back,
            match self.frame_builder {
                Some(builder) => frame.frame matches Some(built) && {
                    &&& built.frame_id == self.id
                    &&& built.window_size == builder.screen_size
                    &&& built.background_color == builder.background_color
                    &&& built.device_pixel_ratio == device_pixel_ratio
                    &&& built.commands@ == builder.commands@
                    &&& built.filter_ops@ == builder.filter_ops@
                },
                None => frame.frame is None,
            },
    {
        let frame = match &self.frame_builder {
            Some(builder) => Some(builder.build(self.id, device_pixel_ratio)),
            None => None,
        };
        RendererFrame {
            pipeline_epoch_map: self.pipeline_epoch_map.clone(),
            layers_bouncing_back: nodes_bouncing_back,
            frame,
        }
    }

    /// What flattening with `context` reads.
    pub open spec fn spec_env(&self, context: &FlattenContext) -> FlattenEnv {
        FlattenEnv {
            scene: *context.scene,
            resource_cache: *context.resource_cache,
            auxiliary_lists: self.pipeline_auxiliary_lists@,
            enable_scrollbars: self.frame_builder_config.enable_scrollbars,
            topmost_scroll_layer_id: self.clip_scroll_tree.topmost_scroll_layer_id,
        }
    }

    /// What flattening with `context` changes.
    pub open spec fn spec_state(&self, context: &FlattenContext) -> FlattenState {
        FlattenState {
            builder: context.builder@,
            nodes: self.clip_scroll_tree.nodes@,
            replacements: context.replacements@,
            epochs: self.pipeline_epoch_map@,
        }
    }

    /// Whether `other` is this frame in all that flattening leaves alone.
    pub open spec fn spec_same_beside_state(&self, other: &Frame) -> bool {
        &&& self.id == other.id
        &&& self.frame_builder == other.frame_builder
        &&& self.frame_builder_config == other.frame_builder_config
        &&& self.pipeline_auxiliary_lists == other.pipeline_auxiliary_lists
        &&& self.clip_scroll_tree.pending_scroll_offsets
            == other.clip_scroll_tree.pending_scroll_offsets
        &&& self.clip_scroll_tree.pipelines_to_discard
            == other.clip_scroll_tree.pipelines_to_discard
        &&& self.clip_scroll_tree.root_reference_frame_id
            == other.clip_scroll_tree.root_reference_frame_id
        &&& self.clip_scroll_tree.topmost_scroll_layer_id
            == other.clip_scroll_tree.topmost_scroll_layer_id
        &&& self.clip_scroll_tree.viewport == other.clip_scroll_tree.viewport
        &&& self.clip_scroll_tree.pan == other.clip_scroll_tree.pan
    }

    /// Whether the frame `before`, flattening with `context_before`, has
    /// become this frame with `context` in the state `state`, and nothing
    /// else has changed.
    pub open spec fn spec_flattened_to(
        &self,
        context: &FlattenContext,
        before: &Frame,
        context_before: &FlattenContext,
        state: FlattenState,
    ) -> bool {
        &&& self.spec_state(context) == state
        &&& self.spec_env(context) == before.spec_env(context_before)
        &&& self.spec_same_beside_state(before)
        &&& context.scene == context_before.scene
        &&& context.resource_cache == context_before.resource_cache
    }

    pub fn flatten_clip(
        &mut self,
        context: &mut FlattenContext,
        pipeline_id: PipelineId,
        parent_id: ScrollLayerId,
        item: &ClipDisplayItem,
        reference_frame_relative_offset: LayerPoint,
        clip: &ClipRegion,
    )
        ensures
            final(self).spec_flattened_to(
                final(context),
                old(self),
                old(context),
                spec_flatten_clip(
                    old(self).spec_state(old(context)),
                    pipeline_id,
                    parent_id,
                    *item,
                    reference_frame_relative_offset,
                    *clip,
                ),
            ),
    {
        let clip_rect = clip.main.translate(&reference_frame_relative_offset);
        context.builder.add_clip_scroll_node(
            item.id,
            parent_id,
            pipeline_id,
            &clip_rect,
            &item.content_size,
            clip,
            &mut self.clip_scroll_tree,
        );
    }

    /// Adds the primitives of an item that draws.
    pub fn flatten_drawing_item(
        &self,
        context: &mut FlattenContext,
        pipeline_id: PipelineId,
        item: &DisplayItem,
        scroll_layer_id: ScrollLayerId,
    )
        requires
            spec_item_can_be_drawn(self.spec_env(old(context)), pipeline_id, *item),
        ensures
            final(context).builder@ == old(context).builder@.with_primitives(
                spec_item_primitives(self.spec_env(old(context)), pipeline_id, *item, scroll_layer_id),
            ),
            final(context).replacements == old(context).replacements,
            final(context).scene == old(context).scene,
            final(context).resource_cache == old(context).resource_cache,
    {
        proof {
            context.builder@.lemma_with_primitives(Seq::empty(), Seq::empty());
        }
        match item.item {
            SpecificDisplayItem::WebGL(info) => {
                context.builder.add_webgl_rectangle(
                    scroll_layer_id,
                    item.rect,
                    &item.clip,
                    info.context_id,
                );
            },
            SpecificDisplayItem::Image(info) => {
                let image = context.resource_cache.get_image_properties(info.image_key);
                if let Some(tile_size) = image.tile_size_if_larger() {
                    let tiled = TiledImage {
                        scroll_layer_id,
                        clip: item.clip,
                        info,
                        image_size: DeviceUintSize {
                            width: image.descriptor.width,
                            height: image.descriptor.height,
                        },
                        tile_size: tile_size as u32,
                    };
                    decompose_image(&mut context.builder, &tiled, &item.rect);
                } else {
                    context.builder.add_image(
                        scroll_layer_id,
                        item.rect,
                        &item.clip,
                        &info.stretch_size,
                        &info.tile_spacing,
                        info.image_key,
                        info.image_rendering,
                        None,
                    );
                }
            },
            SpecificDisplayItem::YuvImage(info) => {
                context.builder.add_yuv_image(
                    scroll_layer_id,
                    item.rect,
                    &item.clip,
                    info.y_image_key,
                    info.u_image_key,
                    info.v_image_key,
                    info.color_space,
                );
            },
            SpecificDisplayItem::Text(text_info) => {
                context.builder.add_text(
                    scroll_layer_id,
                    item.rect,
                    &item.clip,
                    text_info.font_key,
                    text_info.size,
                    text_info.blur_radius,
                    &text_info.color,
                    text_info.glyphs,
                    text_info.glyph_options,
                );
            },
            SpecificDisplayItem::Rectangle(info) => {
                let auxiliary_lists = self.pipeline_auxiliary_lists.get(&pipeline_id.key()).unwrap();
                // Where the clip leaves a part of the rectangle whole, that part
                // needs no clipping by rounded corners: draw it by itself.
                if let Some(opaque_rect) = clip_intersection(
                    &item.rect,
                    &item.clip,
                    auxiliary_lists,
                ) {
                    let mut results: Vec<LayerRect> = Vec::new();
                    subtract_rect(&item.rect, &opaque_rect, &mut results);
                    // The main rectangle of the clip still applies to the part that
                    // is whole.
                    context.builder.add_solid_rectangle(
                        scroll_layer_id,
                        &opaque_rect,
                        &ClipRegion::simple(&item.clip.main),
                        &info.color,
                        PrimitiveFlags::Plain,
                    );
                    let ghost inner = spec_solid_rectangle(
                        scroll_layer_id,
                        opaque_rect,
                        ClipRegion::spec_simple(item.clip.main),
                        info.color,
                        PrimitiveFlags::Plain,
                    );
                    let mut i: usize = 0;
                    while i < results.len()
                        invariant
                            i <= results.len(),
                            context.replacements == old(context).replacements,
                            context.scene == old(context).scene,
                            context.resource_cache == old(context).resource_cache,
                            context.builder@ == old(context).builder@.with_primitives(
                                inner + spec_solid_rectangles(
                                    scroll_layer_id,
                                    results@.take(i as int),
                                    item.clip,
                                    info.color,
                                ),
                            ),
                        decreases results.len() - i,
                    {
                        let transparent_rect = &results[i];
                        context.builder.add_solid_rectangle(
                            scroll_layer_id,
                            transparent_rect,
                            &item.clip,
                            &info.color,
                            PrimitiveFlags::Plain,
                        );
                        proof {
                            let done = spec_solid_rectangles(
                                scroll_layer_id,
                                results@.take(i as int),
                                item.clip,
                                info.color,
                            );
                            let one = spec_solid_rectangle(
                                scroll_layer_id,
                                *transparent_rect,
                                item.clip,
                                info.color,
                                PrimitiveFlags::Plain,
                            );
                            old(context).builder@.lemma_with_primitives(inner + done, one);
                            assert((inner + done) + one =~= inner + spec_solid_rectangles(
                                scroll_layer_id,
                                results@.take(i + 1),
                                item.clip,
                                info.color,
                            ));
                        }
                        i += 1;
                    }
                    assert(results@.take(results.len() as int) =~= results@);
                } else {
                    context.builder.add_solid_rectangle(
                        scroll_layer_id,
                        &item.rect,
                        &item.clip,
                        &info.color,
                        PrimitiveFlags::Plain,
                    );
                }
            },
            SpecificDisplayItem::Gradient(info) => {
                context.builder.add_gradient(
                    scroll_layer_id,
                    item.rect,
                    &item.clip,
                    info.gradient.start_point,
                    info.gradient.end_point,
                    info.gradient.stops,
                    info.gradient.extend_mode,
                );
            },
            SpecificDisplayItem::RadialGradient(info) => {
                context.builder.add_radial_gradient(
                    scroll_layer_id,
                    item.rect,
                    &item.clip,
                    info.gradient.start_center,
                    info.gradient.start_radius,
                    info.gradient.end_center,
                    info.gradient.end_radius,
                    info.gradient.stops,
                    info.gradient.extend_mode,
                );
            },
            SpecificDisplayItem::BoxShadow(box_shadow_info) => {
                context.builder.add_box_shadow(
                    scroll_layer_id,
                    &box_shadow_info.box_bounds,
                    &item.clip,
                    &box_shadow_info.offset,
                    &box_shadow_info.color,
                    box_shadow_info.blur_radius,
                    box_shadow_info.spread_radius,
                    box_shadow_info.border_radius,
                    box_shadow_info.clip_mode,
                );
            },
            SpecificDisplayItem::Border(info) => {
                context.builder.add_border(scroll_layer_id, item.rect, &item.clip, &info);
            },
            _ => {},
        }
    }

    /// Flattens the stacking context that `traversal` has just entered.
    pub fn flatten_stacking_context<'a>(
        &mut self,
        traversal: &mut DisplayListTraversal<'a>,
        pipeline_id: PipelineId,
        context: &mut FlattenContext,
        context_scroll_layer_id: ScrollLayerId,
        reference_frame_relative_offset: LayerPoint,
        level: u32,
        bounds: &LayerRect,
        stacking_context: &StackingContext,
        depth: usize,
    )
        requires
            spec_stacking_context_can_be_flattened(
                old(self).spec_env(old(context)),
                old(traversal).items(),
                old(traversal).next_item_index as int,
                pipeline_id,
                *stacking_context,
                depth as nat,
            ),
            old(context).builder@.reference_frames.len() > 0,
        ensures
            final(traversal).display_list == old(traversal).display_list,
            old(traversal).next_item_index <= final(traversal).next_item_index,
            old(traversal).next_item_index
                <= old(traversal).items().len() ==> final(traversal).next_item_index
                    <= old(traversal).items().len(),
            final(context).replacements@ == old(context).replacements@,
            final(context).builder@.reference_frames == old(context).builder@.reference_frames,
            ({
                let (state, end) = spec_flatten_stacking_context(
                    old(self).spec_env(old(context)),
                    old(self).spec_state(old(context)),
                    old(traversal).items(),
                    old(traversal).next_item_index as int,
                    pipeline_id,
                    context_scroll_layer_id,
                    reference_frame_relative_offset,
                    level == 0,
                    *bounds,
                    *stacking_context,
                    depth as nat,
                );
                &&& final(self).spec_flattened_to(final(context), old(self), old(context), state)
                &&& final(traversal).next_item_index == end
            }),
        decreases depth, old(traversal).items().len() - old(traversal).next_item_index, 1int,
    {
        proof {
            lemma_skip_end_bounds(traversal.items(), traversal.next_item_index as int, 0);
        }
        // An empty stacking context draws nothing: pass over it.
        if traversal.current_stacking_context_empty() {
            traversal.skip_current_stacking_context();
            return ;
        }
        let composition_operations = {
            let auxiliary_lists = self.pipeline_auxiliary_lists.get(&pipeline_id.key()).unwrap();
            CompositeOps::new(
                stacking_context.filter_ops_for_compositing(
                    auxiliary_lists,
                    &context.scene.properties,
                ),
                stacking_context.mix_blend_mode_for_compositing(),
            )
        };
        if composition_operations.will_make_invisible() {
            traversal.skip_current_stacking_context();
            return ;
        }
        let resolved = context.scroll_layer_id_with_replacement(context_scroll_layer_id);
        let mut scroll_layer_id = resolved;
        let fixed = match stacking_context.scroll_policy {
            ScrollPolicy::Fixed => true,
            ScrollPolicy::Scrollable => false,
        };
        if fixed {
            let current = context.builder.current_reference_frame_id();
            context.replacements.push((context_scroll_layer_id, current));
        }
        // A stacking context with a matrix of its own opens a reference frame:
        // what is fixed in place below it is placed relative to that frame.
        let is_reference_frame = stacking_context.transform.is_some()
            || stacking_context.perspective.is_some();
        let offset;
        if is_reference_frame {
            let binding = match &stacking_context.transform {
                Some(binding) => Some(binding),
                None => None,
            };
            let transform = ReferenceFrameTransform {
                offset: reference_frame_relative_offset,
                origin: bounds.origin,
                transform: context.scene.properties.resolve_layout_transform(binding),
                perspective: match stacking_context.perspective {
                    Some(id) => ResolvedTransform::Matrix(id),
                    None => ResolvedTransform::Identity,
                },
            };
            let reference_frame_bounds = LayerRect::new(LayerPoint::zero(), bounds.size);
            scroll_layer_id =
            context.builder.push_reference_frame(
                Some(scroll_layer_id),
                pipeline_id,
                &reference_frame_bounds,
                &transform,
                &mut self.clip_scroll_tree,
            );
            context.replacements.push((context_scroll_layer_id, scroll_layer_id));
            offset = LayerPoint::zero();
        } else {
            offset = reference_frame_relative_offset.offset_by(&bounds.origin);
        }
        context.builder.push_stacking_context(
            &offset,
            pipeline_id,
            level == 0,
            composition_operations,
        );
        if level == 0 {
            if let Some(pipeline) = context.scene.pipeline_map.get(&pipeline_id.key()) {
                if let Some(bg_color) = pipeline.background_color {
                    // The background covers the bounds and is clipped to them; the
                    // clip of the item is not used, as the node that was just
                    // pushed has applied it.
                    context.builder.add_solid_rectangle(
                        scroll_layer_id,
                        bounds,
                        &ClipRegion::simple(bounds),
                        &bg_color,
                        PrimitiveFlags::Plain,
                    );
                }
            }
        }
        proof {
            old(context).builder@.lemma_with_primitives(Seq::empty(), Seq::empty());
            let opened = spec_open_stacking_context(
                old(self).spec_env(old(context)),
                old(self).spec_state(old(context)),
                pipeline_id,
                context_scroll_layer_id,
                reference_frame_relative_offset,
                level == 0,
                *bounds,
                *stacking_context,
            );
            assert(self.spec_state(context).replacements =~= opened.replacements);
            assert(self.spec_state(context).builder.commands =~= opened.builder.commands);
            assert(self.spec_state(context) == opened);
        }
        self.flatten_items(
            traversal,
            pipeline_id,
            context,
            offset,
            level,
            depth,
        );
        if level == 0 && self.frame_builder_config.enable_scrollbars {
            let scrollbar_rect = LayerRect::new(
                LayerPoint::zero(),
                LayerSize::new(SCROLLBAR_WIDTH, SCROLLBAR_HEIGHT),
            );
            context.builder.add_solid_rectangle(
                scroll_layer_id,
                &scrollbar_rect,
                &ClipRegion::simple(&scrollbar_rect),
                &Color { r: 77, g: 77, b: 77, a: 153 },
                PrimitiveFlags::Scrollbar(
                    self.clip_scroll_tree.topmost_scroll_layer_id(),
                    SCROLLBAR_RADIUS,
                ),
            );
        }
        if fixed {
            let _ = context.replacements.pop();
        }
        if is_reference_frame {
            let _ = context.replacements.pop();
            context.builder.pop_reference_frame();
        }
        context.builder.pop_stacking_context();
    }

    /// Brings in the pipeline that an iframe item shows.
    pub fn flatten_iframe(
        &mut self,
        pipeline_id: PipelineId,
        parent_id: ScrollLayerId,
        bounds: &LayerRect,
        context: &mut FlattenContext,
        reference_frame_relative_offset: LayerPoint,
        depth: usize,
    )
        requires
            spec_iframe_can_be_flattened(
                old(self).spec_env(old(context)),
                pipeline_id,
                depth as nat,
            ),
        ensures
            final(context).replacements@ == old(context).replacements@,
            final(context).builder@.reference_frames == old(context).builder@.reference_frames,
            final(self).spec_flattened_to(
                final(context),
                old(self),
                old(context),
                spec_flatten_iframe(
                    old(self).spec_env(old(context)),
                    old(self).spec_state(old(context)),
                    pipeline_id,
                    parent_id,
                    *bounds,
                    reference_frame_relative_offset,
                    depth as nat,
                ),
            ),
        decreases depth, 0int, 0int,
    {
        let scene = context.scene;
        let pipeline = match scene.pipeline_map.get(&pipeline_id.key()) {
            Some(pipeline) => pipeline,
            None => return ,
        };
        let display_list = match scene.display_lists.get(&pipeline_id.key()) {
            Some(display_list) => display_list,
            None => return ,
        };
        let (iframe_stacking_context, iframe_stacking_context_bounds) =
            match starting_stacking_context(display_list) {
            Some(some) => some,
            None => return ,
        };
        if depth == 0 {
            return ;
        }
        let _ = self.pipeline_epoch_map.insert(pipeline_id.key(), pipeline.epoch);
        let iframe_rect = LayerRect::new(LayerPoint::zero(), bounds.size);
        let transform = ReferenceFrameTransform {
            offset: reference_frame_relative_offset,
            origin: bounds.origin,
            transform: ResolvedTransform::Identity,
            perspective: ResolvedTransform::Identity,
        };
        let iframe_reference_frame_id = context.builder.push_reference_frame(
            Some(parent_id),
            pipeline_id,
            &iframe_rect,
            &transform,
            &mut self.clip_scroll_tree,
        );
        let iframe_scroll_layer_id = ScrollLayerId::root_scroll_layer(pipeline_id);
        context.builder.add_clip_scroll_node(
            iframe_scroll_layer_id,
            iframe_reference_frame_id,
            pipeline_id,
            &LayerRect::new(LayerPoint::zero(), iframe_rect.size),
            &iframe_stacking_context_bounds.size,
            &ClipRegion::simple(&iframe_stacking_context_bounds),
            &mut self.clip_scroll_tree,
        );
        let mut traversal = DisplayListTraversal::new_skipping_first(display_list);
        self.flatten_stacking_context(
            &mut traversal,
            pipeline_id,
            context,
            iframe_scroll_layer_id,
            LayerPoint::zero(),
            0,
            &iframe_stacking_context_bounds,
            &iframe_stacking_context,
            depth - 1,
        );
        context.builder.pop_reference_frame();
    }

    /// Flattens the items that follow, up to and with the pop that closes
    /// the stacking context they lie in.
    pub fn flatten_items<'a>(
        &mut self,
        traversal: &mut DisplayListTraversal<'a>,
        pipeline_id: PipelineId,
        context: &mut FlattenContext,
        reference_frame_relative_offset: LayerPoint,
        level: u32,
        depth: usize,
    )
        requires
            spec_items_can_be_flattened(
                old(self).spec_env(old(context)),
                old(traversal).items(),
                old(traversal).next_item_index as int,
                pipeline_id,
                depth as nat,
            ),
            old(context).builder@.reference_frames.len() > 0,
        ensures
            final(traversal).display_list == old(traversal).display_list,
            old(traversal).next_item_index <= final(traversal).next_item_index,
            old(traversal).next_item_index
                <= old(traversal).items().len() ==> final(traversal).next_item_index
                    <= old(traversal).items().len(),
            final(context).replacements@ == old(context).replacements@,
            final(context).builder@.reference_frames == old(context).builder@.reference_frames,
            ({
                let (state, end) = spec_flatten_items(
                    old(self).spec_env(old(context)),
                    old(self).spec_state(old(context)),
                    old(traversal).items(),
                    old(traversal).next_item_index as int,
                    pipeline_id,
                    reference_frame_relative_offset,
                    level == 0,
                    depth as nat,
                );
                &&& final(self).spec_flattened_to(final(context), old(self), old(context), state)
                &&& final(traversal).next_item_index == end
            }),
        decreases depth, old(traversal).items().len() - old(traversal).next_item_index, 0int,
    {
        let ghost env = self.spec_env(context);
        let ghost items = traversal.items();
        loop
            invariant
                traversal.display_list == old(traversal).display_list,
                items == traversal.items(),
                env == old(self).spec_env(old(context)),
                spec_items_can_be_flattened(
                    env,
                    items,
                    traversal.next_item_index as int,
                    pipeline_id,
                    depth as nat,
                ),
                old(traversal).next_item_index <= traversal.next_item_index,
                old(traversal).next_item_index <= items.len() ==> traversal.next_item_index
                    <= items.len(),
                context.replacements@ == old(context).replacements@,
                context.builder@.reference_frames == old(context).builder@.reference_frames,
                context.builder@.reference_frames.len() > 0,
                self.spec_env(context) == env,
                self.spec_same_beside_state(old(self)),
                context.scene == old(context).scene,
                context.resource_cache == old(context).resource_cache,
                spec_flatten_items(
                    env,
                    old(self).spec_state(old(context)),
                    items,
                    old(traversal).next_item_index as int,
                    pipeline_id,
                    reference_frame_relative_offset,
                    level == 0,
                    depth as nat,
                ) == spec_flatten_items(
                    env,
                    self.spec_state(context),
                    items,
                    traversal.next_item_index as int,
                    pipeline_id,
                    reference_frame_relative_offset,
                    level == 0,
                    depth as nat,
                ),
            decreases items.len() - traversal.next_item_index,
        {
            let ghost cursor = traversal.next_item_index as int;
            let item = match traversal.next() {
                Some(item) => item,
                None => return ,
            };
            let scroll_layer_id = context.scroll_layer_id_with_replacement(item.scroll_layer_id);
            match item.item {
                SpecificDisplayItem::PushStackingContext(info) => {
                    proof {
                        lemma_stacking_context_ends_at_its_pop(
                            env,
                            self.spec_state(context),
                            items,
                            cursor + 1,
                            pipeline_id,
                            item.scroll_layer_id,
                            reference_frame_relative_offset,
                            false,
                            item.rect,
                            info.stacking_context,
                            depth as nat,
                        );
                    }
                    self.flatten_stacking_context(
                        traversal,
                        pipeline_id,
                        context,
                        item.scroll_layer_id,
                        reference_frame_relative_offset,
                        level.saturating_add(1),
                        &item.rect,
                        &info.stacking_context,
                        depth,
                    );
                },
                SpecificDisplayItem::Iframe(info) => {
                    self.flatten_iframe(
                        info.pipeline_id,
                        scroll_layer_id,
                        &item.rect,
                        context,
                        reference_frame_relative_offset,
                        depth,
                    );
                },
                SpecificDisplayItem::Clip(info) => {
                    self.flatten_clip(
                        context,
                        pipeline_id,
                        scroll_layer_id,
                        &info,
                        reference_frame_relative_offset,
                        &item.clip,
                    );
                },
                SpecificDisplayItem::PopStackingContext => {
                    return ;
                },
                _ => {
                    self.flatten_drawing_item(context, pipeline_id, item, scroll_layer_id);
                },
            }
        }
    }
}

} // verus!
