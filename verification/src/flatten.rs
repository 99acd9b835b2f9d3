//! What flattening a display list yields, as a function of the scene and
//! of the state that flattening threads through its steps.
//!
//! A display list is walked once, front to back. A stacking context opens
//! with its push item and reaches to the pop item that closes it; what lies
//! between is flattened inside it. An iframe item flattens the display list
//! of another pipeline in full, below a reference frame of its own. Iframes
//! are followed only as deep as the scene has display lists: a pipeline that
//! shows itself is cut off there.

use crate::clip::spec_clip_intersection;
use crate::clip_scroll_tree::{
    ClipScrollNode, DeviceUintSize, NodeKind, ReferenceFrameTransform, ResolvedTransform,
};
use crate::display_list::{
    spec_display_list_fits, spec_starting_stacking_context, AuxiliaryLists, ClipDisplayItem,
    ClipRegion, Color, DisplayItem, Epoch, PipelineId, ScrollLayerId, SpecificDisplayItem,
    StackingContext,
};
use crate::frame_builder::{
    spec_clip_node, spec_draw, spec_solid_rectangle, Command, CompositeOps, FrameBuilderView,
    Primitive, PrimitiveFlags, PrimitiveKind,
};
use crate::geometry::{spec_subtract_rect, LayerPoint, LayerRect, LayerSize};
use crate::image_tiling::TiledImage;
use crate::resource_cache::ResourceCache;
use crate::scene::Scene;
use crate::traversal::{lemma_skip_end_bounds, spec_skip_end};
use vstd::prelude::*;

verus! {

/// The width and the height of the scrollbar that is drawn over the root
/// of a pipeline, and the radius of its corners: 10, 70 and 4 pixels.
pub const SCROLLBAR_WIDTH: i32 = 600;

pub const SCROLLBAR_HEIGHT: i32 = 4200;

pub const SCROLLBAR_RADIUS: i32 = 240;

pub open spec fn spec_scrollbar_color() -> Color {
    Color { r: 77, g: 77, b: 77, a: 153 }
}

pub open spec fn spec_scrollbar_rect() -> LayerRect {
    LayerRect {
        origin: LayerPoint { x: 0, y: 0 },
        size: LayerSize { width: SCROLLBAR_WIDTH, height: SCROLLBAR_HEIGHT },
    }
}

/// What flattening reads and does not change.
pub ghost struct FlattenEnv {
    pub scene: Scene,
    pub resource_cache: ResourceCache,
    pub auxiliary_lists: Map<u64, AuxiliaryLists>,
    pub enable_scrollbars: bool,
    pub topmost_scroll_layer_id: ScrollLayerId,
}

/// What flattening changes as it goes.
pub ghost struct FlattenState {
    pub builder: FrameBuilderView,
    pub nodes: Seq<ClipScrollNode>,
    pub replacements: Seq<(ScrollLayerId, ScrollLayerId)>,
    pub epochs: Map<u64, Epoch>,
}

/// The node that stands for `id`: the redirect on top of the replacement
/// stack if it is one for just this name, else `id` itself. Entries below
/// the top are not looked at.
pub open spec fn spec_with_replacement(
    replacements: Seq<(ScrollLayerId, ScrollLayerId)>,
    id: ScrollLayerId,
) -> ScrollLayerId {
    if replacements.len() > 0 && replacements.last().0 == id {
        replacements.last().1
    } else {
        id
    }
}

impl FlattenEnv {
    /// Whether the scene and the cache are well formed and flattening reads
    /// the payload that the scene holds.
    pub open spec fn well_formed(self) -> bool {
        &&& self.scene.spec_well_formed()
        &&& self.resource_cache.spec_well_formed()
        &&& self.auxiliary_lists == self.scene.pipeline_auxiliary_lists@
    }

    /// Whether `list` can be flattened as a display list of `pipeline_id`:
    /// the payload of the pipeline is there and `list` fits it.
    pub open spec fn ready_for(self, pipeline_id: PipelineId, list: Seq<DisplayItem>) -> bool {
        &&& self.auxiliary_lists.contains_key(pipeline_id.spec_key())
        &&& spec_display_list_fits(list, self.auxiliary_lists[pipeline_id.spec_key()])
    }
}

impl FlattenState {
    pub open spec fn with_primitives(self, primitives: Seq<Primitive>) -> FlattenState {
        FlattenState { builder: self.builder.with_primitives(primitives), ..self }
    }

    pub open spec fn with_replacement(self, from: ScrollLayerId, to: ScrollLayerId) -> FlattenState {
        FlattenState { replacements: self.replacements.push((from, to)), ..self }
    }

    pub open spec fn without_replacement(self) -> FlattenState {
        if self.replacements.len() == 0 {
            self
        } else {
            FlattenState { replacements: self.replacements.drop_last(), ..self }
        }
    }

    /// The name that the next reference frame of `pipeline_id` gets.
    pub open spec fn next_reference_frame_id(self, pipeline_id: PipelineId) -> ScrollLayerId {
        ScrollLayerId::ReferenceFrame(self.nodes.len() as u64, pipeline_id)
    }

    /// The state after a reference frame has been added and made current.
    pub open spec fn with_reference_frame(
        self,
        parent_id: ScrollLayerId,
        pipeline_id: PipelineId,
        rect: LayerRect,
        transform: ReferenceFrameTransform,
    ) -> FlattenState {
        FlattenState {
            builder: self.builder.with_reference_frame(self.next_reference_frame_id(pipeline_id)),
            nodes: self.nodes.push(
                ClipScrollNode {
                    id: self.next_reference_frame_id(pipeline_id),
                    parent: Some(parent_id),
                    pipeline_id,
                    local_viewport_rect: rect,
                    kind: NodeKind::ReferenceFrame(transform),
                    scroll_offset: LayerPoint { x: 0, y: 0 },
                },
            ),
            ..self
        }
    }

    pub open spec fn without_reference_frame(self) -> FlattenState {
        FlattenState { builder: self.builder.without_reference_frame(), ..self }
    }

    pub open spec fn with_node(self, node: ClipScrollNode) -> FlattenState {
        FlattenState { nodes: self.nodes.push(node), ..self }
    }
}

/// The rectangle at the origin with the size of `rect`.
pub open spec fn spec_at_origin(rect: LayerRect) -> LayerRect {
    LayerRect { origin: LayerPoint { x: 0, y: 0 }, size: rect.size }
}

/// The primitives that draw each of `rects` in one colour.
pub open spec fn spec_solid_rectangles(
    scroll_layer_id: ScrollLayerId,
    rects: Seq<LayerRect>,
    clip: ClipRegion,
    color: Color,
) -> Seq<Primitive> {
    if color.a == 0 {
        Seq::empty()
    } else {
        Seq::new(
            rects.len(),
            |i: int|
                Primitive {
                    scroll_layer_id,
                    rect: rects[i],
                    clip,
                    kind: PrimitiveKind::Rectangle { color, flags: PrimitiveFlags::Plain },
                },
        )
    }
}

/// The primitives of a rectangle item. Where its clip leaves a part of the
/// rectangle whole, that part is drawn by itself, clipped by the main
/// rectangle of the clip alone, and what is left of the item around it is
/// drawn piece by piece under the full clip. Else the item is drawn as one
/// under the full clip.
pub open spec fn spec_rectangle_primitives(
    scroll_layer_id: ScrollLayerId,
    item: DisplayItem,
    color: Color,
    lists: AuxiliaryLists,
) -> Seq<Primitive> {
    match spec_clip_intersection(
        item.rect,
        item.clip,
        lists.spec_complex_clip_regions(item.clip.complex),
    ) {
        Some(opaque_rect) => spec_solid_rectangle(
            scroll_layer_id,
            opaque_rect,
            ClipRegion::spec_simple(item.clip.main),
            color,
            PrimitiveFlags::Plain,
        ) + spec_solid_rectangles(
            scroll_layer_id,
            spec_subtract_rect(item.rect, opaque_rect),
            item.clip,
            color,
        ),
        None => spec_solid_rectangle(
            scroll_layer_id,
            item.rect,
            item.clip,
            color,
            PrimitiveFlags::Plain,
        ),
    }
}

/// The primitives that an item which draws adds to the frame, attached to
/// `scroll_layer_id`. An image that is larger than a tile of its resource
/// is cut up; every other item, and every other image, is one primitive
/// with what the item carries. An item that does not draw adds none.
pub open spec fn spec_item_primitives(
    env: FlattenEnv,
    pipeline_id: PipelineId,
    item: DisplayItem,
    scroll_layer_id: ScrollLayerId,
) -> Seq<Primitive> {
    match item.item {
        SpecificDisplayItem::WebGL(info) => seq![
            Primitive {
                scroll_layer_id,
                rect: item.rect,
                clip: item.clip,
                kind: PrimitiveKind::WebGL { context_id: info.context_id },
            },
        ],
        SpecificDisplayItem::Image(info) => {
            let image = env.resource_cache.spec_get_image_properties(info.image_key);
            match image.spec_tile_size_if_larger() {
                Some(tile_size) => (TiledImage {
                    scroll_layer_id,
                    clip: item.clip,
                    info,
                    image_size: DeviceUintSize {
                        width: image.descriptor.width,
                        height: image.descriptor.height,
                    },
                    tile_size: tile_size as u32,
                }).spec_decompose_image(item.rect),
                None => seq![
                    Primitive {
                        scroll_layer_id,
                        rect: item.rect,
                        clip: item.clip,
                        kind: PrimitiveKind::Image {
                            stretch_size: info.stretch_size,
                            tile_spacing: info.tile_spacing,
                            image_key: info.image_key,
                            image_rendering: info.image_rendering,
                            tile_offset: None,
                        },
                    },
                ],
            }
        },
        SpecificDisplayItem::YuvImage(info) => seq![
            Primitive {
                scroll_layer_id,
                rect: item.rect,
                clip: item.clip,
                kind: PrimitiveKind::YuvImage {
                    y_image_key: info.y_image_key,
                    u_image_key: info.u_image_key,
                    v_image_key: info.v_image_key,
                    color_space: info.color_space,
                },
            },
        ],
        SpecificDisplayItem::Text(info) => seq![
            Primitive {
                scroll_layer_id,
                rect: item.rect,
                clip: item.clip,
                kind: PrimitiveKind::Text {
                    font_key: info.font_key,
                    size: info.size,
                    blur_radius: info.blur_radius,
                    color: info.color,
                    glyphs: info.glyphs,
                    glyph_options: info.glyph_options,
                },
            },
        ],
        SpecificDisplayItem::Rectangle(info) => spec_rectangle_primitives(
            scroll_layer_id,
            item,
            info.color,
            env.auxiliary_lists[pipeline_id.spec_key()],
        ),
        SpecificDisplayItem::Gradient(info) => seq![
            Primitive {
                scroll_layer_id,
                rect: item.rect,
                clip: item.clip,
                kind: PrimitiveKind::Gradient {
                    start_point: info.gradient.start_point,
                    end_point: info.gradient.end_point,
                    stops: info.gradient.stops,
                    extend_mode: info.gradient.extend_mode,
                },
            },
        ],
        SpecificDisplayItem::RadialGradient(info) => seq![
            Primitive {
                scroll_layer_id,
                rect: item.rect,
                clip: item.clip,
                kind: PrimitiveKind::RadialGradient {
                    start_center: info.gradient.start_center,
                    start_radius: info.gradient.start_radius,
                    end_center: info.gradient.end_center,
                    end_radius: info.gradient.end_radius,
                    stops: info.gradient.stops,
                    extend_mode: info.gradient.extend_mode,
                },
            },
        ],
        SpecificDisplayItem::BoxShadow(info) => seq![
            Primitive {
                scroll_layer_id,
                rect: info.box_bounds,
                clip: item.clip,
                kind: PrimitiveKind::BoxShadow {
                    offset: info.offset,
                    color: info.color,
                    blur_radius: info.blur_radius,
                    spread_radius: info.spread_radius,
                    border_radius: info.border_radius,
                    clip_mode: info.clip_mode,
                },
            },
        ],
        SpecificDisplayItem::Border(info) => seq![
            Primitive {
                scroll_layer_id,
                rect: item.rect,
                clip: item.clip,
                kind: PrimitiveKind::Border(info),
            },
        ],
        _ => Seq::empty(),
    }
}

/// An image that is no larger than a tile of its resource, or whose
/// resource has no tiles, is drawn with exactly one primitive, whatever its
/// box and its spacing: the box of the item under the clip of the item, with
/// the stretch size and the spacing of the item, and not as a tile.
pub proof fn lemma_small_image_is_drawn_direct(
    env: FlattenEnv,
    pipeline_id: PipelineId,
    item: DisplayItem,
    scroll_layer_id: ScrollLayerId,
)
    requires
        item.item is Image,
        ({
            let image = env.resource_cache.spec_get_image_properties(item.item->Image_0.image_key);
            image.tiling matches Some(tile_size) ==> image.descriptor.width <= tile_size
                && image.descriptor.height <= tile_size
        }),
    ensures
        spec_item_primitives(env, pipeline_id, item, scroll_layer_id) == seq![
            Primitive {
                scroll_layer_id,
                rect: item.rect,
                clip: item.clip,
                kind: PrimitiveKind::Image {
                    stretch_size: item.item->Image_0.stretch_size,
                    tile_spacing: item.item->Image_0.tile_spacing,
                    image_key: item.item->Image_0.image_key,
                    image_rendering: item.item->Image_0.image_rendering,
                    tile_offset: None,
                },
            },
        ],
{
}

/// The state after a clip item: a clip node below `parent_id`, whose
/// viewport is the main rectangle of the clip moved by the running offset.
pub open spec fn spec_flatten_clip(
    state: FlattenState,
    pipeline_id: PipelineId,
    parent_id: ScrollLayerId,
    item: ClipDisplayItem,
    reference_frame_relative_offset: LayerPoint,
    clip: ClipRegion,
) -> FlattenState {
    state.with_node(
        spec_clip_node(
            item.id,
            parent_id,
            pipeline_id,
            clip.main.spec_translate(reference_frame_relative_offset),
            item.content_size,
            clip,
        ),
    )
}

/// Whether the stacking context that is open at `cursor` holds nothing.
pub open spec fn spec_empty_at(list: Seq<DisplayItem>, cursor: int) -> bool {
    !(0 <= cursor < list.len()) || list[cursor].item is PopStackingContext
}

/// Whether a stacking context opens a coordinate space of its own.
pub open spec fn spec_is_reference_frame(stacking_context: StackingContext) -> bool {
    stacking_context.transform is Some || stacking_context.perspective is Some
}

/// The matrix of the reference frame of a stacking context.
pub open spec fn spec_stacking_context_transform(
    scene: Scene,
    stacking_context: StackingContext,
    reference_frame_relative_offset: LayerPoint,
    bounds: LayerRect,
) -> ReferenceFrameTransform {
    ReferenceFrameTransform {
        offset: reference_frame_relative_offset,
        origin: bounds.origin,
        transform: scene.properties.spec_resolve_layout_transform(stacking_context.transform),
        perspective: match stacking_context.perspective {
            Some(id) => ResolvedTransform::Matrix(id),
            None => ResolvedTransform::Identity,
        },
    }
}

/// The background of a pipeline, drawn over `bounds` and clipped to them at
/// the root of its display list, if the scene gives the pipeline a colour.
pub open spec fn spec_background_primitives(
    scene: Scene,
    pipeline_id: PipelineId,
    scroll_layer_id: ScrollLayerId,
    bounds: LayerRect,
) -> Seq<Primitive> {
    match scene.spec_pipeline(pipeline_id) {
        Some(pipeline) => match pipeline.background_color {
            Some(color) => spec_solid_rectangle(
                scroll_layer_id,
                bounds,
                ClipRegion::spec_simple(bounds),
                color,
                PrimitiveFlags::Plain,
            ),
            None => Seq::empty(),
        },
        None => Seq::empty(),
    }
}

/// A background that is fully transparent is not drawn.
pub proof fn lemma_transparent_background_is_not_drawn(
    scene: Scene,
    pipeline_id: PipelineId,
    scroll_layer_id: ScrollLayerId,
    bounds: LayerRect,
)
    requires
        scene.spec_pipeline(pipeline_id) matches Some(pipeline) ==> (pipeline.background_color
            matches Some(color) ==> color.a == 0),
    ensures
        spec_background_primitives(scene, pipeline_id, scroll_layer_id, bounds).len() == 0,
{
}

/// The scrollbar that is drawn last at the root of a display list, if
/// scrollbars are asked for.
pub open spec fn spec_scrollbar_primitives(env: FlattenEnv, scroll_layer_id: ScrollLayerId) -> Seq<
    Primitive,
> {
    if env.enable_scrollbars {
        spec_solid_rectangle(
            scroll_layer_id,
            spec_scrollbar_rect(),
            ClipRegion::spec_simple(spec_scrollbar_rect()),
            spec_scrollbar_color(),
            PrimitiveFlags::Scrollbar(env.topmost_scroll_layer_id, SCROLLBAR_RADIUS),
        )
    } else {
        Seq::empty()
    }
}

/// Whether a stacking context is passed over: it holds nothing, or its
/// filters make it invisible.
pub open spec fn spec_is_passed_over(
    env: FlattenEnv,
    list: Seq<DisplayItem>,
    cursor: int,
    pipeline_id: PipelineId,
    stacking_context: StackingContext,
) -> bool {
    spec_empty_at(list, cursor) || CompositeOps::spec_will_make_invisible(
        stacking_context.spec_filter_ops_for_compositing(
            env.auxiliary_lists[pipeline_id.spec_key()],
            env.scene.properties,
        ),
    )
}

/// The node that a stacking context attaches its background and its
/// scrollbar to: the reference frame that it adds, if it adds one; else the
/// node that stands for the one it was given.
pub open spec fn spec_stacking_context_node(
    state: FlattenState,
    pipeline_id: PipelineId,
    context_scroll_layer_id: ScrollLayerId,
    stacking_context: StackingContext,
) -> ScrollLayerId {
    if spec_is_reference_frame(stacking_context) {
        state.next_reference_frame_id(pipeline_id)
    } else {
        spec_with_replacement(state.replacements, context_scroll_layer_id)
    }
}

/// The running offset inside a stacking context: nothing, if it adds a
/// reference frame; else the running offset plus the origin of its bounds.
pub open spec fn spec_stacking_context_offset(
    reference_frame_relative_offset: LayerPoint,
    bounds: LayerRect,
    stacking_context: StackingContext,
) -> LayerPoint {
    if spec_is_reference_frame(stacking_context) {
        LayerPoint { x: 0, y: 0 }
    } else {
        reference_frame_relative_offset.spec_offset_by(bounds.origin)
    }
}

/// The redirects that a stacking context pushes, in their order: if it is
/// fixed, one from the node it was given to the current reference frame; if
/// it adds a reference frame, one from the node it was given to that frame.
pub open spec fn spec_pushed_replacements(
    state: FlattenState,
    pipeline_id: PipelineId,
    context_scroll_layer_id: ScrollLayerId,
    stacking_context: StackingContext,
) -> Seq<(ScrollLayerId, ScrollLayerId)> {
    let fixed: Seq<(ScrollLayerId, ScrollLayerId)> = if stacking_context.scroll_policy is Fixed {
        seq![(context_scroll_layer_id, state.builder.reference_frames.last())]
    } else {
        Seq::empty()
    };
    if spec_is_reference_frame(stacking_context) {
        fixed.push((context_scroll_layer_id, state.next_reference_frame_id(pipeline_id)))
    } else {
        fixed
    }
}

/// The state in which a stacking context has been entered: the redirects
/// are pushed; the reference frame, if there is one, is added below the node
/// that stands for the one that was given, and made current; and the
/// stacking context is opened.
pub open spec fn spec_enter_stacking_context(
    env: FlattenEnv,
    state: FlattenState,
    pipeline_id: PipelineId,
    context_scroll_layer_id: ScrollLayerId,
    reference_frame_relative_offset: LayerPoint,
    top_level: bool,
    bounds: LayerRect,
    stacking_context: StackingContext,
) -> FlattenState {
    let framed = if spec_is_reference_frame(stacking_context) {
        state.with_reference_frame(
            spec_with_replacement(state.replacements, context_scroll_layer_id),
            pipeline_id,
            spec_at_origin(bounds),
            spec_stacking_context_transform(
                env.scene,
                stacking_context,
                reference_frame_relative_offset,
                bounds,
            ),
        )
    } else {
        state
    };
    FlattenState {
        replacements: state.replacements + spec_pushed_replacements(
            state,
            pipeline_id,
            context_scroll_layer_id,
            stacking_context,
        ),
        builder: framed.builder.with_stacking_context(
            spec_stacking_context_offset(reference_frame_relative_offset, bounds, stacking_context),
            pipeline_id,
            top_level,
            stacking_context.spec_filter_ops_for_compositing(
                env.auxiliary_lists[pipeline_id.spec_key()],
                env.scene.properties,
            ),
            stacking_context.spec_mix_blend_mode_for_compositing(),
        ),
        ..framed
    }
}

/// The state in which the items of a stacking context are flattened: the
/// stacking context has been entered, and at the root of a display list the
/// background of the pipeline has been drawn.
pub open spec fn spec_open_stacking_context(
    env: FlattenEnv,
    state: FlattenState,
    pipeline_id: PipelineId,
    context_scroll_layer_id: ScrollLayerId,
    reference_frame_relative_offset: LayerPoint,
    top_level: bool,
    bounds: LayerRect,
    stacking_context: StackingContext,
) -> FlattenState {
    let entered = spec_enter_stacking_context(
        env,
        state,
        pipeline_id,
        context_scroll_layer_id,
        reference_frame_relative_offset,
        top_level,
        bounds,
        stacking_context,
    );
    if top_level {
        entered.with_primitives(
            spec_background_primitives(
                env.scene,
                pipeline_id,
                spec_stacking_context_node(
                    state,
                    pipeline_id,
                    context_scroll_layer_id,
                    stacking_context,
                ),
                bounds,
            ),
        )
    } else {
        entered
    }
}

/// The state after a stacking context whose items have been flattened to
/// `state`: at the root of a display list the scrollbar is drawn; the
/// redirects that were pushed are popped, and so is the reference frame, if
/// one was added; and the stacking context is closed.
pub open spec fn spec_close_stacking_context(
    env: FlattenEnv,
    state: FlattenState,
    scroll_layer_id: ScrollLayerId,
    top_level: bool,
    stacking_context: StackingContext,
) -> FlattenState {
    let drawn = if top_level {
        state.with_primitives(spec_scrollbar_primitives(env, scroll_layer_id))
    } else {
        state
    };
    let unfixed = if stacking_context.scroll_policy is Fixed {
        drawn.without_replacement()
    } else {
        drawn
    };
    let unframed = if spec_is_reference_frame(stacking_context) {
        unfixed.without_replacement().without_reference_frame()
    } else {
        unfixed
    };
    FlattenState {
        builder: unframed.builder.with_command(Command::PopStackingContext),
        ..unframed
    }
}

/// The state and the cursor after the stacking context that is open at
/// `cursor` has been flattened.
///
/// A stacking context that holds nothing, or that its filters make
/// invisible, is passed over: the state stays as it is. Else, in this order:
/// a fixed stacking context redirects the node it was given to the current
/// reference frame; a stacking context with a transform or a perspective
/// adds a reference frame below the node that stands for the one it was
/// given, redirects that one to it and starts the running offset anew, and
/// any other adds the origin of its bounds to the running offset; the
/// stacking context is opened; at the root of a display list the background
/// of the pipeline is drawn; the items are flattened; at the root the
/// scrollbar is drawn; and what was pushed is popped again.
pub open spec fn spec_flatten_stacking_context(
    env: FlattenEnv,
    state: FlattenState,
    list: Seq<DisplayItem>,
    cursor: int,
    pipeline_id: PipelineId,
    context_scroll_layer_id: ScrollLayerId,
    reference_frame_relative_offset: LayerPoint,
    top_level: bool,
    bounds: LayerRect,
    stacking_context: StackingContext,
    depth: nat,
) -> (FlattenState, int)
    decreases depth, list.len() - cursor, 1int,
{
    if spec_is_passed_over(env, list, cursor, pipeline_id, stacking_context) {
        (state, spec_skip_end(list, cursor, 0))
    } else {
        let (inner, end) = spec_flatten_items(
            env,
            spec_open_stacking_context(
                env,
                state,
                pipeline_id,
                context_scroll_layer_id,
                reference_frame_relative_offset,
                top_level,
                bounds,
                stacking_context,
            ),
            list,
            cursor,
            pipeline_id,
            spec_stacking_context_offset(reference_frame_relative_offset, bounds, stacking_context),
            top_level,
            depth,
        );
        (
            spec_close_stacking_context(
                env,
                inner,
                spec_stacking_context_node(
                    state,
                    pipeline_id,
                    context_scroll_layer_id,
                    stacking_context,
                ),
                top_level,
                stacking_context,
            ),
            end,
        )
    }
}

/// The state and the cursor after the items from `cursor` on have been
/// flattened, up to and with the pop that closes the stacking context they
/// lie in, or to the end of the list.
///
/// Each item is attached to the node that stands for the one it names. An
/// item that draws adds its primitives; a push is flattened as a stacking
/// context one level down, with the item's own node as the node it is
/// given; an iframe brings in its pipeline; a clip adds a clip node.
pub open spec fn spec_flatten_items(
    env: FlattenEnv,
    state: FlattenState,
    list: Seq<DisplayItem>,
    cursor: int,
    pipeline_id: PipelineId,
    reference_frame_relative_offset: LayerPoint,
    top_level: bool,
    depth: nat,
) -> (FlattenState, int)
    decreases depth, list.len() - cursor, 0int,
{
    if !(0 <= cursor < list.len()) {
        (state, cursor)
    } else {
        let item = list[cursor];
        let scroll_layer_id = spec_with_replacement(state.replacements, item.scroll_layer_id);
        match item.item {
            SpecificDisplayItem::PopStackingContext => (state, cursor + 1),
            SpecificDisplayItem::PushStackingContext(info) => {
                let (inner, end) = spec_flatten_stacking_context(
                    env,
                    state,
                    list,
                    cursor + 1,
                    pipeline_id,
                    item.scroll_layer_id,
                    reference_frame_relative_offset,
                    false,
                    item.rect,
                    info.stacking_context,
                    depth,
                );
                if cursor < end <= list.len() {
                    spec_flatten_items(
                        env,
                        inner,
                        list,
                        end,
                        pipeline_id,
                        reference_frame_relative_offset,
                        top_level,
                        depth,
                    )
                } else {
                    (inner, end)
                }
            },
            SpecificDisplayItem::Iframe(info) => spec_flatten_items(
                env,
                spec_flatten_iframe(
                    env,
                    state,
                    info.pipeline_id,
                    scroll_layer_id,
                    item.rect,
                    reference_frame_relative_offset,
                    depth,
                ),
                list,
                cursor + 1,
                pipeline_id,
                reference_frame_relative_offset,
                top_level,
                depth,
            ),
            SpecificDisplayItem::Clip(info) => spec_flatten_items(
                env,
                spec_flatten_clip(
                    state,
                    pipeline_id,
                    scroll_layer_id,
                    info,
                    reference_frame_relative_offset,
                    item.clip,
                ),
                list,
                cursor + 1,
                pipeline_id,
                reference_frame_relative_offset,
                top_level,
                depth,
            ),
            _ => spec_flatten_items(
                env,
                state.with_primitives(spec_item_primitives(env, pipeline_id, item, scroll_layer_id)),
                list,
                cursor + 1,
                pipeline_id,
                reference_frame_relative_offset,
                top_level,
                depth,
            ),
        }
    }
}

/// The state in which the display list that an iframe shows is flattened:
/// the epoch of its pipeline is recorded; a reference frame is added below
/// `parent_id` that moves by the running offset and by the origin of
/// `bounds`, and made current; and below it the root scroll node of the
/// pipeline is added, which holds the bounds of the root stacking context.
pub open spec fn spec_open_iframe(
    state: FlattenState,
    pipeline_id: PipelineId,
    epoch: Epoch,
    parent_id: ScrollLayerId,
    bounds: LayerRect,
    reference_frame_relative_offset: LayerPoint,
    stacking_context_bounds: LayerRect,
) -> FlattenState {
    (FlattenState {
        epochs: state.epochs.insert(pipeline_id.spec_key(), epoch),
        ..state
    }).with_reference_frame(
        parent_id,
        pipeline_id,
        spec_at_origin(bounds),
        ReferenceFrameTransform {
            offset: reference_frame_relative_offset,
            origin: bounds.origin,
            transform: ResolvedTransform::Identity,
            perspective: ResolvedTransform::Identity,
        },
    ).with_node(
        spec_clip_node(
            ScrollLayerId::spec_root_scroll_layer(pipeline_id),
            state.next_reference_frame_id(pipeline_id),
            pipeline_id,
            spec_at_origin(bounds),
            stacking_context_bounds.size,
            ClipRegion::spec_simple(stacking_context_bounds),
        ),
    )
}

/// The state after an iframe item has brought in `pipeline_id`.
///
/// Nothing changes if the scene does not know the pipeline, has no display
/// list for it, or the list does not start with a stacking context, or if
/// iframes have been followed as deep as `depth` allows. Else the epoch of
/// the pipeline is recorded; a reference frame is added below `parent_id`
/// that moves by the running offset and by the origin of `bounds`; below it
/// the root scroll node of the pipeline; and the display list of the
/// pipeline is flattened from its root, at the origin.
pub open spec fn spec_flatten_iframe(
    env: FlattenEnv,
    state: FlattenState,
    pipeline_id: PipelineId,
    parent_id: ScrollLayerId,
    bounds: LayerRect,
    reference_frame_relative_offset: LayerPoint,
    depth: nat,
) -> FlattenState
    decreases depth, 0int, 0int,
{
    match (env.scene.spec_pipeline(pipeline_id), env.scene.spec_display_list(pipeline_id)) {
        (Some(pipeline), Some(list)) => match spec_starting_stacking_context(list) {
            Some((stacking_context, stacking_context_bounds)) => if depth == 0 {
                state
            } else {
                let rooted = spec_open_iframe(
                    state,
                    pipeline_id,
                    pipeline.epoch,
                    parent_id,
                    bounds,
                    reference_frame_relative_offset,
                    stacking_context_bounds,
                );
                spec_flatten_stacking_context(
                    env,
                    rooted,
                    list,
                    1,
                    pipeline_id,
                    ScrollLayerId::spec_root_scroll_layer(pipeline_id),
                    LayerPoint { x: 0, y: 0 },
                    true,
                    stacking_context_bounds,
                    stacking_context,
                    (depth - 1) as nat,
                ).0.without_reference_frame()
            },
            None => state,
        },
        _ => state,
    }
}

/// Whether an item that draws can be drawn: the payload of the pipeline
/// of a rectangle is there and, unless an image masks the rectangle, holds
/// the rounded clips that it names; and an image that is cut into tiles is
/// not said to have tiles without size.
pub open spec fn spec_item_can_be_drawn(
    env: FlattenEnv,
    pipeline_id: PipelineId,
    item: DisplayItem,
) -> bool {
    match item.item {
        SpecificDisplayItem::Rectangle(_) => {
            &&& env.auxiliary_lists.contains_key(pipeline_id.spec_key())
            &&& item.clip.image_mask is None ==> item.clip.complex.spec_fits(
                env.auxiliary_lists[pipeline_id.spec_key()].complex_clip_regions@.len(),
            )
        },
        SpecificDisplayItem::Image(info) => env.resource_cache.spec_get_image_properties(
            info.image_key,
        ).spec_tile_size_if_larger() != Some(0u16),
        _ => true,
    }
}

/// Whether the stacking context that is open at `cursor` can be flattened:
/// unless it holds nothing, the payload of its pipeline is there and holds
/// its filters, and unless these make it invisible, its items can be
/// flattened. Nothing is asked of what flattening passes over.
pub open spec fn spec_stacking_context_can_be_flattened(
    env: FlattenEnv,
    list: Seq<DisplayItem>,
    cursor: int,
    pipeline_id: PipelineId,
    stacking_context: StackingContext,
    depth: nat,
) -> bool
    decreases depth, list.len() - cursor, 1int,
{
    spec_empty_at(list, cursor) || {
        &&& env.auxiliary_lists.contains_key(pipeline_id.spec_key())
        &&& stacking_context.filters.spec_fits(
            env.auxiliary_lists[pipeline_id.spec_key()].filters@.len(),
        )
        &&& CompositeOps::spec_will_make_invisible(
            stacking_context.spec_filter_ops_for_compositing(
                env.auxiliary_lists[pipeline_id.spec_key()],
                env.scene.properties,
            ),
        ) || spec_items_can_be_flattened(env, list, cursor, pipeline_id, depth)
    }
}

/// Whether the items from `cursor` on can be flattened, up to the pop that
/// closes the stacking context they lie in: each item that draws can be
/// drawn, each stacking context among them can be flattened, and so can
/// each pipeline that an iframe among them shows.
pub open spec fn spec_items_can_be_flattened(
    env: FlattenEnv,
    list: Seq<DisplayItem>,
    cursor: int,
    pipeline_id: PipelineId,
    depth: nat,
) -> bool
    decreases depth, list.len() - cursor, 0int,
{
    if !(0 <= cursor < list.len()) {
        true
    } else {
        match list[cursor].item {
            SpecificDisplayItem::PopStackingContext => true,
            SpecificDisplayItem::PushStackingContext(info) => {
                let end = spec_skip_end(list, cursor + 1, 0);
                &&& spec_stacking_context_can_be_flattened(
                    env,
                    list,
                    cursor + 1,
                    pipeline_id,
                    info.stacking_context,
                    depth,
                )
                &&& cursor < end <= list.len() ==> spec_items_can_be_flattened(
                    env,
                    list,
                    end,
                    pipeline_id,
                    depth,
                )
            },
            SpecificDisplayItem::Iframe(info) => {
                &&& spec_iframe_can_be_flattened(env, info.pipeline_id, depth)
                &&& spec_items_can_be_flattened(env, list, cursor + 1, pipeline_id, depth)
            },
            _ => {
                &&& spec_item_can_be_drawn(env, pipeline_id, list[cursor])
                &&& spec_items_can_be_flattened(env, list, cursor + 1, pipeline_id, depth)
            },
        }
    }
}

/// Whether the pipeline that an iframe shows can be flattened, as far as it
/// is flattened at all.
pub open spec fn spec_iframe_can_be_flattened(
    env: FlattenEnv,
    pipeline_id: PipelineId,
    depth: nat,
) -> bool
    decreases depth, 0int, 0int,
{
    match (env.scene.spec_pipeline(pipeline_id), env.scene.spec_display_list(pipeline_id)) {
        (Some(_), Some(list)) => match spec_starting_stacking_context(list) {
            Some((stacking_context, _)) => depth == 0 || spec_stacking_context_can_be_flattened(
                env,
                list,
                1,
                pipeline_id,
                stacking_context,
                (depth - 1) as nat,
            ),
            None => true,
        },
        _ => true,
    }
}

/// In a scene and with a cache that are well formed, every stacking
/// context of a display list of the scene can be flattened.
pub proof fn lemma_well_formed_stacking_context_can_be_flattened(
    env: FlattenEnv,
    list: Seq<DisplayItem>,
    cursor: int,
    pipeline_id: PipelineId,
    stacking_context: StackingContext,
    depth: nat,
)
    requires
        env.well_formed(),
        env.ready_for(pipeline_id, list),
        stacking_context.filters.spec_fits(
            env.auxiliary_lists[pipeline_id.spec_key()].filters@.len(),
        ),
    ensures
        spec_stacking_context_can_be_flattened(
            env,
            list,
            cursor,
            pipeline_id,
            stacking_context,
            depth,
        ),
    decreases depth, list.len() - cursor, 1int,
{
    if !spec_empty_at(list, cursor) {
        lemma_well_formed_items_can_be_flattened(env, list, cursor, pipeline_id, depth);
    }
}

/// The same for the items of a display list of the scene.
pub proof fn lemma_well_formed_items_can_be_flattened(
    env: FlattenEnv,
    list: Seq<DisplayItem>,
    cursor: int,
    pipeline_id: PipelineId,
    depth: nat,
)
    requires
        env.well_formed(),
        env.ready_for(pipeline_id, list),
    ensures
        spec_items_can_be_flattened(env, list, cursor, pipeline_id, depth),
    decreases depth, list.len() - cursor, 0int,
{
    if 0 <= cursor < list.len() {
        match list[cursor].item {
            SpecificDisplayItem::PopStackingContext => {},
            SpecificDisplayItem::PushStackingContext(info) => {
                let end = spec_skip_end(list, cursor + 1, 0);
                lemma_well_formed_stacking_context_can_be_flattened(
                    env,
                    list,
                    cursor + 1,
                    pipeline_id,
                    info.stacking_context,
                    depth,
                );
                if cursor < end <= list.len() {
                    lemma_well_formed_items_can_be_flattened(env, list, end, pipeline_id, depth);
                }
            },
            SpecificDisplayItem::Iframe(info) => {
                lemma_well_formed_iframe_can_be_flattened(env, info.pipeline_id, depth);
                lemma_well_formed_items_can_be_flattened(
                    env,
                    list,
                    cursor + 1,
                    pipeline_id,
                    depth,
                );
            },
            _ => {
                lemma_well_formed_items_can_be_flattened(
                    env,
                    list,
                    cursor + 1,
                    pipeline_id,
                    depth,
                );
            },
        }
    }
}

/// The same for a pipeline of the scene that an iframe shows.
pub proof fn lemma_well_formed_iframe_can_be_flattened(
    env: FlattenEnv,
    pipeline_id: PipelineId,
    depth: nat,
)
    requires
        env.well_formed(),
    ensures
        spec_iframe_can_be_flattened(env, pipeline_id, depth),
    decreases depth, 0int, 0int,
{
    match (env.scene.spec_pipeline(pipeline_id), env.scene.spec_display_list(pipeline_id)) {
        (Some(_), Some(list)) => match spec_starting_stacking_context(list) {
            Some((stacking_context, _)) => if depth != 0 {
                lemma_well_formed_stacking_context_can_be_flattened(
                    env,
                    list,
                    1,
                    pipeline_id,
                    stacking_context,
                    (depth - 1) as nat,
                );
            },
            None => {},
        },
        _ => {},
    }
}

/// Inside a fixed stacking context that adds no reference frame, the node
/// that it was given stands for the reference frame that was current when
/// it was entered, and every other node for itself: the items are flattened
/// with just that redirect on top of the stack.
pub proof fn lemma_fixed_stacking_context_redirects(
    env: FlattenEnv,
    state: FlattenState,
    pipeline_id: PipelineId,
    context_scroll_layer_id: ScrollLayerId,
    reference_frame_relative_offset: LayerPoint,
    top_level: bool,
    bounds: LayerRect,
    stacking_context: StackingContext,
    id: ScrollLayerId,
)
    requires
        stacking_context.scroll_policy is Fixed,
        !spec_is_reference_frame(stacking_context),
    ensures
        ({
            let opened = spec_open_stacking_context(
                env,
                state,
                pipeline_id,
                context_scroll_layer_id,
                reference_frame_relative_offset,
                top_level,
                bounds,
                stacking_context,
            );
            &&& opened.replacements == state.replacements.push(
                (context_scroll_layer_id, state.builder.reference_frames.last()),
            )
            &&& opened.nodes == state.nodes
            &&& spec_with_replacement(opened.replacements, id) == if id
                == context_scroll_layer_id {
                state.builder.reference_frames.last()
            } else {
                id
            }
        }),
{
    let entry = (context_scroll_layer_id, state.builder.reference_frames.last());
    assert(state.replacements + seq![entry] =~= state.replacements.push(entry));
}

/// The state and the cursor after the one item at `cursor`, which is not a
/// pop, has been flattened: an item that draws is attached to the node that
/// stands for the one it names and adds its primitives; a push is flattened
/// as a stacking context; an iframe brings in its pipeline; a clip adds a
/// clip node.
pub open spec fn spec_flatten_item(
    env: FlattenEnv,
    state: FlattenState,
    list: Seq<DisplayItem>,
    cursor: int,
    pipeline_id: PipelineId,
    reference_frame_relative_offset: LayerPoint,
    depth: nat,
) -> (FlattenState, int) {
    let item = list[cursor];
    let scroll_layer_id = spec_with_replacement(state.replacements, item.scroll_layer_id);
    match item.item {
        SpecificDisplayItem::PushStackingContext(info) => spec_flatten_stacking_context(
            env,
            state,
            list,
            cursor + 1,
            pipeline_id,
            item.scroll_layer_id,
            reference_frame_relative_offset,
            false,
            item.rect,
            info.stacking_context,
            depth,
        ),
        SpecificDisplayItem::Iframe(info) => (
            spec_flatten_iframe(
                env,
                state,
                info.pipeline_id,
                scroll_layer_id,
                item.rect,
                reference_frame_relative_offset,
                depth,
            ),
            cursor + 1,
        ),
        SpecificDisplayItem::Clip(info) => (
            spec_flatten_clip(
                state,
                pipeline_id,
                scroll_layer_id,
                info,
                reference_frame_relative_offset,
                item.clip,
            ),
            cursor + 1,
        ),
        _ => (
            state.with_primitives(spec_item_primitives(env, pipeline_id, item, scroll_layer_id)),
            cursor + 1,
        ),
    }
}

/// Items are flattened one by one, each against the same stack of
/// redirects: flattening the items from `cursor` on is flattening the item
/// at `cursor` and then the items behind it; the item leaves both stacks as
/// they stood and only adds to the rest; and the cursor moves behind the
/// item, which for a push is behind the pop that closes it.
pub proof fn lemma_items_are_flattened_one_by_one(
    env: FlattenEnv,
    state: FlattenState,
    list: Seq<DisplayItem>,
    cursor: int,
    pipeline_id: PipelineId,
    reference_frame_relative_offset: LayerPoint,
    top_level: bool,
    depth: nat,
)
    requires
        0 <= cursor < list.len(),
        !(list[cursor].item is PopStackingContext),
    ensures
        ({
            let (after, next) = spec_flatten_item(
                env,
                state,
                list,
                cursor,
                pipeline_id,
                reference_frame_relative_offset,
                depth,
            );
            &&& state.grows_to(after)
            &&& cursor < next <= list.len()
            &&& next == if list[cursor].item is PushStackingContext {
                spec_skip_end(list, cursor + 1, 0)
            } else {
                cursor + 1
            }
            &&& spec_flatten_items(
                env,
                state,
                list,
                cursor,
                pipeline_id,
                reference_frame_relative_offset,
                top_level,
                depth,
            ) == spec_flatten_items(
                env,
                after,
                list,
                next,
                pipeline_id,
                reference_frame_relative_offset,
                top_level,
                depth,
            )
        }),
{
    let item = list[cursor];
    let scroll_layer_id = spec_with_replacement(state.replacements, item.scroll_layer_id);
    state.lemma_steps_build_on();
    match item.item {
        SpecificDisplayItem::PushStackingContext(info) => {
            lemma_stacking_context_grows_state(
                env,
                state,
                list,
                cursor + 1,
                pipeline_id,
                item.scroll_layer_id,
                reference_frame_relative_offset,
                false,
                item.rect,
                info.stacking_context,
                depth,
            );
            lemma_stacking_context_ends_at_its_pop(
                env,
                state,
                list,
                cursor + 1,
                pipeline_id,
                item.scroll_layer_id,
                reference_frame_relative_offset,
                false,
                item.rect,
                info.stacking_context,
                depth,
            );
            lemma_skip_end_bounds(list, cursor + 1, 0);
        },
        SpecificDisplayItem::Iframe(info) => {
            lemma_iframe_grows_state(
                env,
                state,
                info.pipeline_id,
                scroll_layer_id,
                item.rect,
                reference_frame_relative_offset,
                depth,
            );
        },
        _ => {},
    }
}

/// Only the redirect that was pushed last is ever looked at: with `(from,
/// to)` on top of the stack, `from` stands for `to` and every other name for
/// itself, whatever lies below.
pub proof fn lemma_replacement_is_single_slot(
    replacements: Seq<(ScrollLayerId, ScrollLayerId)>,
    from: ScrollLayerId,
    to: ScrollLayerId,
    id: ScrollLayerId,
)
    ensures
        spec_with_replacement(replacements.push((from, to)), id) == if from == id {
            to
        } else {
            id
        },
        spec_with_replacement(Seq::empty(), id) == id,
{
}

/// A stacking context that holds nothing leaves the state as it is: no
/// primitive, no node. The cursor still moves behind it.
pub proof fn lemma_empty_stacking_context_adds_nothing(
    env: FlattenEnv,
    state: FlattenState,
    list: Seq<DisplayItem>,
    cursor: int,
    pipeline_id: PipelineId,
    context_scroll_layer_id: ScrollLayerId,
    reference_frame_relative_offset: LayerPoint,
    top_level: bool,
    bounds: LayerRect,
    stacking_context: StackingContext,
    depth: nat,
)
    requires
        0 <= cursor < list.len(),
        list[cursor].item is PopStackingContext,
    ensures
        spec_flatten_stacking_context(
            env,
            state,
            list,
            cursor,
            pipeline_id,
            context_scroll_layer_id,
            reference_frame_relative_offset,
            top_level,
            bounds,
            stacking_context,
            depth,
        ) == (state, cursor + 1),
{
}

/// Skipping out of `inner + outer + 1` open stacking contexts is skipping
/// out of `inner + 1` of them, and from there out of `outer` more.
proof fn lemma_skip_end_in_two_steps(list: Seq<DisplayItem>, from: int, inner: nat, outer: nat)
    requires
        0 <= from,
    ensures
        spec_skip_end(list, from, inner + outer + 1) == spec_skip_end(
            list,
            spec_skip_end(list, from, inner),
            outer,
        ),
    decreases list.len() - from,
{
    if from < list.len() {
        match list[from].item {
            SpecificDisplayItem::PushStackingContext(_) => {
                lemma_skip_end_in_two_steps(list, from + 1, inner + 1, outer);
            },
            SpecificDisplayItem::PopStackingContext => {
                if inner > 0 {
                    lemma_skip_end_in_two_steps(list, from + 1, (inner - 1) as nat, outer);
                }
            },
            _ => {
                lemma_skip_end_in_two_steps(list, from + 1, inner, outer);
            },
        }
    }
}

/// Flattening a stacking context moves the cursor just behind the pop that
/// closes it, whatever the stacking context holds and whether it is drawn
/// or passed over.
pub proof fn lemma_stacking_context_ends_at_its_pop(
    env: FlattenEnv,
    state: FlattenState,
    list: Seq<DisplayItem>,
    cursor: int,
    pipeline_id: PipelineId,
    context_scroll_layer_id: ScrollLayerId,
    reference_frame_relative_offset: LayerPoint,
    top_level: bool,
    bounds: LayerRect,
    stacking_context: StackingContext,
    depth: nat,
)
    requires
        0 <= cursor,
    ensures
        spec_flatten_stacking_context(
            env,
            state,
            list,
            cursor,
            pipeline_id,
            context_scroll_layer_id,
            reference_frame_relative_offset,
            top_level,
            bounds,
            stacking_context,
            depth,
        ).1 == spec_skip_end(list, cursor, 0),
    decreases depth, list.len() - cursor, 1int,
{
    if !spec_is_passed_over(env, list, cursor, pipeline_id, stacking_context) {
        lemma_items_end_at_the_closing_pop(
            env,
            spec_open_stacking_context(
                env,
                state,
                pipeline_id,
                context_scroll_layer_id,
                reference_frame_relative_offset,
                top_level,
                bounds,
                stacking_context,
            ),
            list,
            cursor,
            pipeline_id,
            spec_stacking_context_offset(reference_frame_relative_offset, bounds, stacking_context),
            top_level,
            depth,
        );
    }
}

/// Flattening items moves the cursor just behind the pop that closes the
/// stacking context they lie in, or to the end of the list if there is no
/// such pop.
pub proof fn lemma_items_end_at_the_closing_pop(
    env: FlattenEnv,
    state: FlattenState,
    list: Seq<DisplayItem>,
    cursor: int,
    pipeline_id: PipelineId,
    reference_frame_relative_offset: LayerPoint,
    top_level: bool,
    depth: nat,
)
    requires
        0 <= cursor,
    ensures
        spec_flatten_items(
            env,
            state,
            list,
            cursor,
            pipeline_id,
            reference_frame_relative_offset,
            top_level,
            depth,
        ).1 == spec_skip_end(list, cursor, 0),
    decreases depth, list.len() - cursor, 0int,
{
    if cursor < list.len() {
        let item = list[cursor];
        let scroll_layer_id = spec_with_replacement(state.replacements, item.scroll_layer_id);
        match item.item {
            SpecificDisplayItem::PopStackingContext => {},
            SpecificDisplayItem::PushStackingContext(info) => {
                let (inner, end) = spec_flatten_stacking_context(
                    env,
                    state,
                    list,
                    cursor + 1,
                    pipeline_id,
                    item.scroll_layer_id,
                    reference_frame_relative_offset,
                    false,
                    item.rect,
                    info.stacking_context,
                    depth,
                );
                lemma_stacking_context_ends_at_its_pop(
                    env,
                    state,
                    list,
                    cursor + 1,
                    pipeline_id,
                    item.scroll_layer_id,
                    reference_frame_relative_offset,
                    false,
                    item.rect,
                    info.stacking_context,
                    depth,
                );
                lemma_skip_end_bounds(list, cursor + 1, 0);
                lemma_skip_end_in_two_steps(list, cursor + 1, 0, 0);
                lemma_items_end_at_the_closing_pop(
                    env,
                    inner,
                    list,
                    end,
                    pipeline_id,
                    reference_frame_relative_offset,
                    top_level,
                    depth,
                );
            },
            SpecificDisplayItem::Iframe(info) => {
                lemma_items_end_at_the_closing_pop(
                    env,
                    spec_flatten_iframe(
                        env,
                        state,
                        info.pipeline_id,
                        scroll_layer_id,
                        item.rect,
                        reference_frame_relative_offset,
                        depth,
                    ),
                    list,
                    cursor + 1,
                    pipeline_id,
                    reference_frame_relative_offset,
                    top_level,
                    depth,
                );
            },
            SpecificDisplayItem::Clip(info) => {
                lemma_items_end_at_the_closing_pop(
                    env,
                    spec_flatten_clip(
                        state,
                        pipeline_id,
                        scroll_layer_id,
                        info,
                        reference_frame_relative_offset,
                        item.clip,
                    ),
                    list,
                    cursor + 1,
                    pipeline_id,
                    reference_frame_relative_offset,
                    top_level,
                    depth,
                );
            },
            _ => {
                lemma_items_end_at_the_closing_pop(
                    env,
                    state.with_primitives(
                        spec_item_primitives(env, pipeline_id, item, scroll_layer_id),
                    ),
                    list,
                    cursor + 1,
                    pipeline_id,
                    reference_frame_relative_offset,
                    top_level,
                    depth,
                );
            },
        }
    }
}

impl FlattenState {
    /// Whether `later` is this state with more drawn, more nodes and more
    /// epochs, and all else as it was: what was built stays in place, and
    /// the two stacks stand as they stood.
    pub open spec fn grows_to(self, later: FlattenState) -> bool {
        &&& later.replacements == self.replacements
        &&& later.builder.reference_frames == self.builder.reference_frames
        &&& later.builder.screen_size == self.builder.screen_size
        &&& later.builder.background_color == self.builder.background_color
        &&& later.builder.config == self.builder.config
        &&& self.builder.commands.is_prefix_of(later.builder.commands)
        &&& self.builder.filter_ops.is_prefix_of(later.builder.filter_ops)
        &&& self.nodes.is_prefix_of(later.nodes)
        &&& forall|k: u64| self.epochs.contains_key(k) ==> later.epochs.contains_key(k)
    }

    /// Whether `later` is this state with more drawn, more nodes and more
    /// epochs, whatever has become of the two stacks.
    pub open spec fn built_on_by(self, later: FlattenState) -> bool {
        &&& later.builder.screen_size == self.builder.screen_size
        &&& later.builder.background_color == self.builder.background_color
        &&& later.builder.config == self.builder.config
        &&& self.builder.commands.is_prefix_of(later.builder.commands)
        &&& self.builder.filter_ops.is_prefix_of(later.builder.filter_ops)
        &&& self.nodes.is_prefix_of(later.nodes)
        &&& forall|k: u64| self.epochs.contains_key(k) ==> later.epochs.contains_key(k)
    }

    proof fn lemma_steps_build_on(self)
        ensures
            forall|primitives: Seq<Primitive>| #[trigger]
                self.built_on_by(self.with_primitives(primitives)),
            forall|from: ScrollLayerId, to: ScrollLayerId| #[trigger]
                self.built_on_by(self.with_replacement(from, to)),
            self.built_on_by(self.without_replacement()),
            self.built_on_by(self.without_reference_frame()),
            forall|node: ClipScrollNode| #[trigger] self.built_on_by(self.with_node(node)),
            forall|
                parent_id: ScrollLayerId,
                pipeline_id: PipelineId,
                rect: LayerRect,
                transform: ReferenceFrameTransform,
            | #[trigger]
                self.built_on_by(self.with_reference_frame(parent_id, pipeline_id, rect, transform)),
            self.built_on_by(self),
    {
    }
}

/// What opening a stacking context adds to the state, and what closing it
/// takes back. The opened state is the given one with more drawn and, if a
/// reference frame is added, one more node; it has one more stacking
/// context open; and its stacks are the given ones with what the stacking
/// context pushes on top. If flattening the items leaves both stacks as they
/// stood and only adds to the rest, closing restores the two stacks of the
/// given state and closes the one stacking context.
pub proof fn lemma_stacking_context_opens_and_closes(
    env: FlattenEnv,
    state: FlattenState,
    inner: FlattenState,
    pipeline_id: PipelineId,
    context_scroll_layer_id: ScrollLayerId,
    reference_frame_relative_offset: LayerPoint,
    top_level: bool,
    bounds: LayerRect,
    stacking_context: StackingContext,
)
    ensures
        ({
            let opened = spec_open_stacking_context(
                env,
                state,
                pipeline_id,
                context_scroll_layer_id,
                reference_frame_relative_offset,
                top_level,
                bounds,
                stacking_context,
            );
            let closed = spec_close_stacking_context(
                env,
                inner,
                spec_stacking_context_node(
                    state,
                    pipeline_id,
                    context_scroll_layer_id,
                    stacking_context,
                ),
                top_level,
                stacking_context,
            );
            &&& state.built_on_by(opened)
            &&& opened.replacements == state.replacements + spec_pushed_replacements(
                state,
                pipeline_id,
                context_scroll_layer_id,
                stacking_context,
            )
            &&& opened.builder.reference_frames == if spec_is_reference_frame(stacking_context) {
                state.builder.reference_frames.push(state.next_reference_frame_id(pipeline_id))
            } else {
                state.builder.reference_frames
            }
            &&& spec_open_stacking_contexts(opened.builder.commands)
                == spec_open_stacking_contexts(state.builder.commands) + 1
            &&& spec_open_stacking_contexts(closed.builder.commands)
                == spec_open_stacking_contexts(inner.builder.commands) - 1
            &&& opened.grows_to(inner) ==> state.grows_to(closed)
        }),
{
    let opened = spec_open_stacking_context(
        env,
        state,
        pipeline_id,
        context_scroll_layer_id,
        reference_frame_relative_offset,
        top_level,
        bounds,
        stacking_context,
    );
    let scroll_layer_id = spec_stacking_context_node(
        state,
        pipeline_id,
        context_scroll_layer_id,
        stacking_context,
    );
    let closed = spec_close_stacking_context(env, inner, scroll_layer_id, top_level, stacking_context);
    let entered = spec_enter_stacking_context(
        env,
        state,
        pipeline_id,
        context_scroll_layer_id,
        reference_frame_relative_offset,
        top_level,
        bounds,
        stacking_context,
    );
    state.lemma_steps_build_on();
    entered.lemma_steps_build_on();
    lemma_open_after_push(state.builder.commands, entered.builder.commands.last());
    assert(entered.builder.commands.drop_last() =~= state.builder.commands);
    lemma_open_after_drawing(
        entered.builder.commands,
        spec_background_primitives(env.scene, pipeline_id, scroll_layer_id, bounds),
    );
    let drawn = if top_level {
        inner.with_primitives(spec_scrollbar_primitives(env, scroll_layer_id))
    } else {
        inner
    };
    lemma_open_after_drawing(
        inner.builder.commands,
        spec_scrollbar_primitives(env, scroll_layer_id),
    );
    lemma_open_after_push(drawn.builder.commands, Command::PopStackingContext);
    if opened.grows_to(inner) {
        inner.lemma_steps_build_on();
        drawn.lemma_steps_build_on();
        assert(closed.replacements =~= state.replacements);
        assert(closed.builder.reference_frames =~= state.builder.reference_frames);
        assert(state.built_on_by(closed));
    }
}

/// Flattening a stacking context only adds to what was built: the commands,
/// the filters and the nodes that were there stay in place in front of what
/// is added, no epoch is lost, and the stack of redirects and the stack of
/// reference frames stand at the end as they stood at the start.
pub proof fn lemma_stacking_context_grows_state(
    env: FlattenEnv,
    state: FlattenState,
    list: Seq<DisplayItem>,
    cursor: int,
    pipeline_id: PipelineId,
    context_scroll_layer_id: ScrollLayerId,
    reference_frame_relative_offset: LayerPoint,
    top_level: bool,
    bounds: LayerRect,
    stacking_context: StackingContext,
    depth: nat,
)
    ensures
        state.grows_to(
            spec_flatten_stacking_context(
                env,
                state,
                list,
                cursor,
                pipeline_id,
                context_scroll_layer_id,
                reference_frame_relative_offset,
                top_level,
                bounds,
                stacking_context,
                depth,
            ).0,
        ),
    decreases depth, list.len() - cursor, 1int,
{
    if !spec_is_passed_over(env, list, cursor, pipeline_id, stacking_context) {
        let opened = spec_open_stacking_context(
            env,
            state,
            pipeline_id,
            context_scroll_layer_id,
            reference_frame_relative_offset,
            top_level,
            bounds,
            stacking_context,
        );
        let offset = spec_stacking_context_offset(reference_frame_relative_offset, bounds, stacking_context);
        lemma_items_grow_state(env, opened, list, cursor, pipeline_id, offset, top_level, depth);
        lemma_stacking_context_opens_and_closes(
            env,
            state,
            spec_flatten_items(env, opened, list, cursor, pipeline_id, offset, top_level, depth).0,
            pipeline_id,
            context_scroll_layer_id,
            reference_frame_relative_offset,
            top_level,
            bounds,
            stacking_context,
        );
    }
}

/// Flattening items only adds to what was built, and leaves the two stacks
/// as they stood.
pub proof fn lemma_items_grow_state(
    env: FlattenEnv,
    state: FlattenState,
    list: Seq<DisplayItem>,
    cursor: int,
    pipeline_id: PipelineId,
    reference_frame_relative_offset: LayerPoint,
    top_level: bool,
    depth: nat,
)
    ensures
        state.grows_to(
            spec_flatten_items(
                env,
                state,
                list,
                cursor,
                pipeline_id,
                reference_frame_relative_offset,
                top_level,
                depth,
            ).0,
        ),
    decreases depth, list.len() - cursor, 0int,
{
    if 0 <= cursor < list.len() {
        let item = list[cursor];
        let scroll_layer_id = spec_with_replacement(state.replacements, item.scroll_layer_id);
        match item.item {
            SpecificDisplayItem::PopStackingContext => {},
            SpecificDisplayItem::PushStackingContext(info) => {
                let (inner, end) = spec_flatten_stacking_context(
                    env,
                    state,
                    list,
                    cursor + 1,
                    pipeline_id,
                    item.scroll_layer_id,
                    reference_frame_relative_offset,
                    false,
                    item.rect,
                    info.stacking_context,
                    depth,
                );
                lemma_stacking_context_grows_state(
                    env,
                    state,
                    list,
                    cursor + 1,
                    pipeline_id,
                    item.scroll_layer_id,
                    reference_frame_relative_offset,
                    false,
                    item.rect,
                    info.stacking_context,
                    depth,
                );
                if cursor < end <= list.len() {
                    lemma_items_grow_state(
                        env,
                        inner,
                        list,
                        end,
                        pipeline_id,
                        reference_frame_relative_offset,
                        top_level,
                        depth,
                    );
                }
            },
            SpecificDisplayItem::Iframe(info) => {
                let inner = spec_flatten_iframe(
                    env,
                    state,
                    info.pipeline_id,
                    scroll_layer_id,
                    item.rect,
                    reference_frame_relative_offset,
                    depth,
                );
                lemma_iframe_grows_state(
                    env,
                    state,
                    info.pipeline_id,
                    scroll_layer_id,
                    item.rect,
                    reference_frame_relative_offset,
                    depth,
                );
                lemma_items_grow_state(
                    env,
                    inner,
                    list,
                    cursor + 1,
                    pipeline_id,
                    reference_frame_relative_offset,
                    top_level,
                    depth,
                );
            },
            SpecificDisplayItem::Clip(info) => {
                let inner = spec_flatten_clip(
                    state,
                    pipeline_id,
                    scroll_layer_id,
                    info,
                    reference_frame_relative_offset,
                    item.clip,
                );
                lemma_items_grow_state(
                    env,
                    inner,
                    list,
                    cursor + 1,
                    pipeline_id,
                    reference_frame_relative_offset,
                    top_level,
                    depth,
                );
            },
            _ => {
                let inner = state.with_primitives(
                    spec_item_primitives(env, pipeline_id, item, scroll_layer_id),
                );
                lemma_items_grow_state(
                    env,
                    inner,
                    list,
                    cursor + 1,
                    pipeline_id,
                    reference_frame_relative_offset,
                    top_level,
                    depth,
                );
            },
        }
    }
}

/// Bringing in an iframe only adds to what was built, and leaves the two
/// stacks as they stood.
pub proof fn lemma_iframe_grows_state(
    env: FlattenEnv,
    state: FlattenState,
    pipeline_id: PipelineId,
    parent_id: ScrollLayerId,
    bounds: LayerRect,
    reference_frame_relative_offset: LayerPoint,
    depth: nat,
)
    ensures
        state.grows_to(
            spec_flatten_iframe(
                env,
                state,
                pipeline_id,
                parent_id,
                bounds,
                reference_frame_relative_offset,
                depth,
            ),
        ),
    decreases depth, 0int, 0int,
{
    match (env.scene.spec_pipeline(pipeline_id), env.scene.spec_display_list(pipeline_id)) {
        (Some(pipeline), Some(list)) => match spec_starting_stacking_context(list) {
            Some((stacking_context, stacking_context_bounds)) => if depth != 0 {
                let rooted = spec_open_iframe(
                    state,
                    pipeline_id,
                    pipeline.epoch,
                    parent_id,
                    bounds,
                    reference_frame_relative_offset,
                    stacking_context_bounds,
                );
                let inner = spec_flatten_stacking_context(
                    env,
                    rooted,
                    list,
                    1,
                    pipeline_id,
                    ScrollLayerId::spec_root_scroll_layer(pipeline_id),
                    LayerPoint { x: 0, y: 0 },
                    true,
                    stacking_context_bounds,
                    stacking_context,
                    (depth - 1) as nat,
                ).0;
                lemma_stacking_context_grows_state(
                    env,
                    rooted,
                    list,
                    1,
                    pipeline_id,
                    ScrollLayerId::spec_root_scroll_layer(pipeline_id),
                    LayerPoint { x: 0, y: 0 },
                    true,
                    stacking_context_bounds,
                    stacking_context,
                    (depth - 1) as nat,
                );
                assert(inner.without_reference_frame().builder.reference_frames
                    =~= state.builder.reference_frames);
            },
            None => {},
        },
        _ => {},
    }
}

/// How many more stacking contexts `commands` open than they close.
pub open spec fn spec_open_stacking_contexts(commands: Seq<Command>) -> int
    decreases commands.len(),
{
    if commands.len() == 0 {
        0
    } else {
        spec_open_stacking_contexts(commands.drop_last()) + match commands.last() {
            Command::PushStackingContext(_) => 1int,
            Command::PopStackingContext => -1int,
            Command::Primitive(_) => 0int,
        }
    }
}

proof fn lemma_open_after_push(commands: Seq<Command>, command: Command)
    ensures
        spec_open_stacking_contexts(commands.push(command)) == spec_open_stacking_contexts(commands)
            + match command {
            Command::PushStackingContext(_) => 1int,
            Command::PopStackingContext => -1int,
            Command::Primitive(_) => 0int,
        },
{
    assert(commands.push(command).drop_last() =~= commands);
}

proof fn lemma_open_after_drawing(commands: Seq<Command>, primitives: Seq<Primitive>)
    ensures
        spec_open_stacking_contexts(commands + spec_draw(primitives))
            == spec_open_stacking_contexts(commands),
    decreases primitives.len(),
{
    if primitives.len() == 0 {
    } else {
        lemma_open_after_drawing(commands, primitives.drop_last());
        assert(commands + spec_draw(primitives) =~= (commands + spec_draw(
            primitives.drop_last(),
        )).push(Command::Primitive(primitives.last())));
        lemma_open_after_push(
            commands + spec_draw(primitives.drop_last()),
            Command::Primitive(primitives.last()),
        );
    }
}

/// Flattening a stacking context closes every stacking context that it
/// opens.
pub proof fn lemma_stacking_context_is_balanced(
    env: FlattenEnv,
    state: FlattenState,
    list: Seq<DisplayItem>,
    cursor: int,
    pipeline_id: PipelineId,
    context_scroll_layer_id: ScrollLayerId,
    reference_frame_relative_offset: LayerPoint,
    top_level: bool,
    bounds: LayerRect,
    stacking_context: StackingContext,
    depth: nat,
)
    ensures
        spec_open_stacking_contexts(
            spec_flatten_stacking_context(
                env,
                state,
                list,
                cursor,
                pipeline_id,
                context_scroll_layer_id,
                reference_frame_relative_offset,
                top_level,
                bounds,
                stacking_context,
                depth,
            ).0.builder.commands,
        ) == spec_open_stacking_contexts(state.builder.commands),
    decreases depth, list.len() - cursor, 1int,
{
    if !spec_is_passed_over(env, list, cursor, pipeline_id, stacking_context) {
        let opened = spec_open_stacking_context(
                env,
                state,
                pipeline_id,
                context_scroll_layer_id,
                reference_frame_relative_offset,
                top_level,
                bounds,
                stacking_context,
            );
        let offset = spec_stacking_context_offset(reference_frame_relative_offset, bounds, stacking_context);
        lemma_items_are_balanced(env, opened, list, cursor, pipeline_id, offset, top_level, depth);
        lemma_stacking_context_opens_and_closes(
            env,
            state,
            spec_flatten_items(env, opened, list, cursor, pipeline_id, offset, top_level, depth).0,
            pipeline_id,
            context_scroll_layer_id,
            reference_frame_relative_offset,
            top_level,
            bounds,
            stacking_context,
        );
    }
}

/// Flattening items closes every stacking context that it opens.
pub proof fn lemma_items_are_balanced(
    env: FlattenEnv,
    state: FlattenState,
    list: Seq<DisplayItem>,
    cursor: int,
    pipeline_id: PipelineId,
    reference_frame_relative_offset: LayerPoint,
    top_level: bool,
    depth: nat,
)
    ensures
        spec_open_stacking_contexts(
            spec_flatten_items(
                env,
                state,
                list,
                cursor,
                pipeline_id,
                reference_frame_relative_offset,
                top_level,
                depth,
            ).0.builder.commands,
        ) == spec_open_stacking_contexts(state.builder.commands),
    decreases depth, list.len() - cursor, 0int,
{
    if 0 <= cursor < list.len() {
        let item = list[cursor];
        let scroll_layer_id = spec_with_replacement(state.replacements, item.scroll_layer_id);
        match item.item {
            SpecificDisplayItem::PopStackingContext => {},
            SpecificDisplayItem::PushStackingContext(info) => {
                let (inner, end) = spec_flatten_stacking_context(
                    env,
                    state,
                    list,
                    cursor + 1,
                    pipeline_id,
                    item.scroll_layer_id,
                    reference_frame_relative_offset,
                    false,
                    item.rect,
                    info.stacking_context,
                    depth,
                );
                lemma_stacking_context_is_balanced(
                    env,
                    state,
                    list,
                    cursor + 1,
                    pipeline_id,
                    item.scroll_layer_id,
                    reference_frame_relative_offset,
                    false,
                    item.rect,
                    info.stacking_context,
                    depth,
                );
                if cursor < end <= list.len() {
                    lemma_items_are_balanced(
                        env,
                        inner,
                        list,
                        end,
                        pipeline_id,
                        reference_frame_relative_offset,
                        top_level,
                        depth,
                    );
                }
            },
            SpecificDisplayItem::Iframe(info) => {
                lemma_iframe_is_balanced(
                    env,
                    state,
                    info.pipeline_id,
                    scroll_layer_id,
                    item.rect,
                    reference_frame_relative_offset,
                    depth,
                );
                lemma_items_are_balanced(
                    env,
                    spec_flatten_iframe(
                        env,
                        state,
                        info.pipeline_id,
                        scroll_layer_id,
                        item.rect,
                        reference_frame_relative_offset,
                        depth,
                    ),
                    list,
                    cursor + 1,
                    pipeline_id,
                    reference_frame_relative_offset,
                    top_level,
                    depth,
                );
            },
            SpecificDisplayItem::Clip(info) => {
                lemma_items_are_balanced(
                    env,
                    spec_flatten_clip(
                        state,
                        pipeline_id,
                        scroll_layer_id,
                        info,
                        reference_frame_relative_offset,
                        item.clip,
                    ),
                    list,
                    cursor + 1,
                    pipeline_id,
                    reference_frame_relative_offset,
                    top_level,
                    depth,
                );
            },
            _ => {
                let primitives = spec_item_primitives(env, pipeline_id, item, scroll_layer_id);
                lemma_open_after_drawing(state.builder.commands, primitives);
                lemma_items_are_balanced(
                    env,
                    state.with_primitives(primitives),
                    list,
                    cursor + 1,
                    pipeline_id,
                    reference_frame_relative_offset,
                    top_level,
                    depth,
                );
            },
        }
    }
}

/// Bringing in an iframe closes every stacking context that it opens.
pub proof fn lemma_iframe_is_balanced(
    env: FlattenEnv,
    state: FlattenState,
    pipeline_id: PipelineId,
    parent_id: ScrollLayerId,
    bounds: LayerRect,
    reference_frame_relative_offset: LayerPoint,
    depth: nat,
)
    ensures
        spec_open_stacking_contexts(
            spec_flatten_iframe(
                env,
                state,
                pipeline_id,
                parent_id,
                bounds,
                reference_frame_relative_offset,
                depth,
            ).builder.commands,
        ) == spec_open_stacking_contexts(state.builder.commands),
    decreases depth, 0int, 0int,
{
    match (env.scene.spec_pipeline(pipeline_id), env.scene.spec_display_list(pipeline_id)) {
        (Some(pipeline), Some(list)) => match spec_starting_stacking_context(list) {
            Some((stacking_context, stacking_context_bounds)) => if depth != 0 {
                let rooted = spec_open_iframe(
                    state,
                    pipeline_id,
                    pipeline.epoch,
                    parent_id,
                    bounds,
                    reference_frame_relative_offset,
                    stacking_context_bounds,
                );
                lemma_stacking_context_is_balanced(
                    env,
                    rooted,
                    list,
                    1,
                    pipeline_id,
                    ScrollLayerId::spec_root_scroll_layer(pipeline_id),
                    LayerPoint { x: 0, y: 0 },
                    true,
                    stacking_context_bounds,
                    stacking_context,
                    (depth - 1) as nat,
                );
            },
            None => {},
        },
        _ => {},
    }
}

/// Whether every iframe of `list` that shows a pipeline with a display
/// list shows one that `rank` puts below `bound`.
pub open spec fn spec_iframes_rank_below(
    scene: Scene,
    list: Seq<DisplayItem>,
    rank: spec_fn(PipelineId) -> nat,
    bound: nat,
) -> bool {
    forall|i: int|
        0 <= i < list.len() ==> match (#[trigger] list[i]).item {
            SpecificDisplayItem::Iframe(info) => scene.spec_display_list(info.pipeline_id) is Some
                ==> rank(info.pipeline_id) < bound,
            _ => true,
        }
}

/// Whether `rank` puts every pipeline above the pipelines that its display
/// list shows in iframes. A scene has such a ranking just if no pipeline
/// shows itself, be it through others.
pub open spec fn spec_ranks_iframes(scene: Scene, rank: spec_fn(PipelineId) -> nat) -> bool {
    forall|pipeline_id: PipelineId| #[trigger]
        scene.spec_display_list(pipeline_id) is Some ==> spec_iframes_rank_below(
            scene,
            scene.spec_display_list(pipeline_id)->0,
            rank,
            rank(pipeline_id),
        )
}

/// Where the iframes of a display list show only pipelines ranked below
/// `bound`, following iframes to any depth from `bound` on yields the same:
/// the limit on the depth cuts nothing off.
pub proof fn lemma_depth_suffices_for_stacking_context(
    env: FlattenEnv,
    state: FlattenState,
    list: Seq<DisplayItem>,
    cursor: int,
    pipeline_id: PipelineId,
    context_scroll_layer_id: ScrollLayerId,
    reference_frame_relative_offset: LayerPoint,
    top_level: bool,
    bounds: LayerRect,
    stacking_context: StackingContext,
    rank: spec_fn(PipelineId) -> nat,
    bound: nat,
    depth: nat,
    deeper: nat,
)
    requires
        spec_ranks_iframes(env.scene, rank),
        spec_iframes_rank_below(env.scene, list, rank, bound),
        bound <= depth,
        bound <= deeper,
    ensures
        spec_flatten_stacking_context(
            env,
            state,
            list,
            cursor,
            pipeline_id,
            context_scroll_layer_id,
            reference_frame_relative_offset,
            top_level,
            bounds,
            stacking_context,
            depth,
        ) == spec_flatten_stacking_context(
            env,
            state,
            list,
            cursor,
            pipeline_id,
            context_scroll_layer_id,
            reference_frame_relative_offset,
            top_level,
            bounds,
            stacking_context,
            deeper,
        ),
    decreases bound, list.len() - cursor, 1int,
{
    if !spec_is_passed_over(env, list, cursor, pipeline_id, stacking_context) {
        lemma_depth_suffices_for_items(
            env,
            spec_open_stacking_context(
                env,
                state,
                pipeline_id,
                context_scroll_layer_id,
                reference_frame_relative_offset,
                top_level,
                bounds,
                stacking_context,
            ),
            list,
            cursor,
            pipeline_id,
            spec_stacking_context_offset(reference_frame_relative_offset, bounds, stacking_context),
            top_level,
            rank,
            bound,
            depth,
            deeper,
        );
    }
}

/// The same for the items of a stacking context.
pub proof fn lemma_depth_suffices_for_items(
    env: FlattenEnv,
    state: FlattenState,
    list: Seq<DisplayItem>,
    cursor: int,
    pipeline_id: PipelineId,
    reference_frame_relative_offset: LayerPoint,
    top_level: bool,
    rank: spec_fn(PipelineId) -> nat,
    bound: nat,
    depth: nat,
    deeper: nat,
)
    requires
        spec_ranks_iframes(env.scene, rank),
        spec_iframes_rank_below(env.scene, list, rank, bound),
        bound <= depth,
        bound <= deeper,
    ensures
        spec_flatten_items(
            env,
            state,
            list,
            cursor,
            pipeline_id,
            reference_frame_relative_offset,
            top_level,
            depth,
        ) == spec_flatten_items(
            env,
            state,
            list,
            cursor,
            pipeline_id,
            reference_frame_relative_offset,
            top_level,
            deeper,
        ),
    decreases bound, list.len() - cursor, 0int,
{
    if 0 <= cursor < list.len() {
        let item = list[cursor];
        let scroll_layer_id = spec_with_replacement(state.replacements, item.scroll_layer_id);
        match item.item {
            SpecificDisplayItem::PopStackingContext => {},
            SpecificDisplayItem::PushStackingContext(info) => {
                let (inner, end) = spec_flatten_stacking_context(
                    env,
                    state,
                    list,
                    cursor + 1,
                    pipeline_id,
                    item.scroll_layer_id,
                    reference_frame_relative_offset,
                    false,
                    item.rect,
                    info.stacking_context,
                    depth,
                );
                lemma_depth_suffices_for_stacking_context(
                    env,
                    state,
                    list,
                    cursor + 1,
                    pipeline_id,
                    item.scroll_layer_id,
                    reference_frame_relative_offset,
                    false,
                    item.rect,
                    info.stacking_context,
                    rank,
                    bound,
                    depth,
                    deeper,
                );
                if cursor < end <= list.len() {
                    lemma_depth_suffices_for_items(
                        env,
                        inner,
                        list,
                        end,
                        pipeline_id,
                        reference_frame_relative_offset,
                        top_level,
                        rank,
                        bound,
                        depth,
                        deeper,
                    );
                }
            },
            SpecificDisplayItem::Iframe(info) => {
                lemma_depth_suffices_for_iframe(
                    env,
                    state,
                    info.pipeline_id,
                    scroll_layer_id,
                    item.rect,
                    reference_frame_relative_offset,
                    rank,
                    bound,
                    depth,
                    deeper,
                );
                lemma_depth_suffices_for_items(
                    env,
                    spec_flatten_iframe(
                        env,
                        state,
                        info.pipeline_id,
                        scroll_layer_id,
                        item.rect,
                        reference_frame_relative_offset,
                        depth,
                    ),
                    list,
                    cursor + 1,
                    pipeline_id,
                    reference_frame_relative_offset,
                    top_level,
                    rank,
                    bound,
                    depth,
                    deeper,
                );
            },
            SpecificDisplayItem::Clip(info) => {
                lemma_depth_suffices_for_items(
                    env,
                    spec_flatten_clip(
                        state,
                        pipeline_id,
                        scroll_layer_id,
                        info,
                        reference_frame_relative_offset,
                        item.clip,
                    ),
                    list,
                    cursor + 1,
                    pipeline_id,
                    reference_frame_relative_offset,
                    top_level,
                    rank,
                    bound,
                    depth,
                    deeper,
                );
            },
            _ => {
                lemma_depth_suffices_for_items(
                    env,
                    state.with_primitives(
                        spec_item_primitives(env, pipeline_id, item, scroll_layer_id),
                    ),
                    list,
                    cursor + 1,
                    pipeline_id,
                    reference_frame_relative_offset,
                    top_level,
                    rank,
                    bound,
                    depth,
                    deeper,
                );
            },
        }
    }
}

/// The same for an iframe that shows a pipeline ranked below `bound`.
pub proof fn lemma_depth_suffices_for_iframe(
    env: FlattenEnv,
    state: FlattenState,
    pipeline_id: PipelineId,
    parent_id: ScrollLayerId,
    bounds: LayerRect,
    reference_frame_relative_offset: LayerPoint,
    rank: spec_fn(PipelineId) -> nat,
    bound: nat,
    depth: nat,
    deeper: nat,
)
    requires
        spec_ranks_iframes(env.scene, rank),
        env.scene.spec_display_list(pipeline_id) is Some ==> rank(pipeline_id) < bound,
        bound <= depth,
        bound <= deeper,
    ensures
        spec_flatten_iframe(
            env,
            state,
            pipeline_id,
            parent_id,
            bounds,
            reference_frame_relative_offset,
            depth,
        ) == spec_flatten_iframe(
            env,
            state,
            pipeline_id,
            parent_id,
            bounds,
            reference_frame_relative_offset,
            deeper,
        ),
    decreases bound, 0int, 0int,
{
    match (env.scene.spec_pipeline(pipeline_id), env.scene.spec_display_list(pipeline_id)) {
        (Some(pipeline), Some(list)) => match spec_starting_stacking_context(list) {
            Some((stacking_context, stacking_context_bounds)) => {
                let rooted = spec_open_iframe(
                    state,
                    pipeline_id,
                    pipeline.epoch,
                    parent_id,
                    bounds,
                    reference_frame_relative_offset,
                    stacking_context_bounds,
                );
                lemma_depth_suffices_for_stacking_context(
                    env,
                    rooted,
                    list,
                    1,
                    pipeline_id,
                    ScrollLayerId::spec_root_scroll_layer(pipeline_id),
                    LayerPoint { x: 0, y: 0 },
                    true,
                    stacking_context_bounds,
                    stacking_context,
                    rank,
                    rank(pipeline_id),
                    (depth - 1) as nat,
                    (deeper - 1) as nat,
                );
            },
            None => {},
        },
        _ => {},
    }
}

/// The pipeline whose key is `key`.
pub open spec fn spec_pipeline_of_key(key: u64) -> PipelineId {
    PipelineId((key / 0x1_0000_0000) as u32, (key % 0x1_0000_0000) as u32)
}

/// Every pipeline is the pipeline of its key.
pub proof fn lemma_pipeline_of_its_key(pipeline_id: PipelineId)
    ensures
        spec_pipeline_of_key(pipeline_id.spec_key()) == pipeline_id,
{
}

/// Whether `epoch` is the epoch that the scene gives to the pipeline with
/// the key `key`, and the scene has a display list for that pipeline.
pub open spec fn spec_scene_gives_epoch(scene: Scene, key: u64, epoch: Epoch) -> bool {
    let pipeline_id = spec_pipeline_of_key(key);
    &&& pipeline_id.spec_key() == key
    &&& scene.spec_pipeline(pipeline_id) matches Some(pipeline) && pipeline.epoch == epoch
    &&& scene.spec_display_list(pipeline_id) is Some
}

/// Whether every epoch of `later` is one of `earlier` or one that the
/// scene gives.
pub open spec fn spec_epochs_come_from(
    scene: Scene,
    earlier: Map<u64, Epoch>,
    later: Map<u64, Epoch>,
) -> bool {
    forall|key: u64| #[trigger]
        later.contains_key(key) ==> (earlier.contains_key(key) && later[key] == earlier[key])
            || spec_scene_gives_epoch(scene, key, later[key])
}

/// The keys of the pipelines that the iframes of a stacking context show,
/// directly or through what they show, as far as iframes are followed.
pub open spec fn spec_pipelines_shown_in_stacking_context(
    env: FlattenEnv,
    list: Seq<DisplayItem>,
    cursor: int,
    pipeline_id: PipelineId,
    stacking_context: StackingContext,
    depth: nat,
) -> Set<u64>
    decreases depth, list.len() - cursor, 1int,
{
    if spec_is_passed_over(env, list, cursor, pipeline_id, stacking_context) {
        Set::empty()
    } else {
        spec_pipelines_shown_in_items(env, list, cursor, pipeline_id, depth)
    }
}

/// The keys of the pipelines that the iframes among the items from
/// `cursor` on show, up to the pop that closes the stacking context they lie
/// in.
pub open spec fn spec_pipelines_shown_in_items(
    env: FlattenEnv,
    list: Seq<DisplayItem>,
    cursor: int,
    pipeline_id: PipelineId,
    depth: nat,
) -> Set<u64>
    decreases depth, list.len() - cursor, 0int,
{
    if !(0 <= cursor < list.len()) {
        Set::empty()
    } else {
        match list[cursor].item {
            SpecificDisplayItem::PopStackingContext => Set::empty(),
            SpecificDisplayItem::PushStackingContext(info) => {
                let end = spec_skip_end(list, cursor + 1, 0);
                spec_pipelines_shown_in_stacking_context(
                    env,
                    list,
                    cursor + 1,
                    pipeline_id,
                    info.stacking_context,
                    depth,
                ).union(
                    if cursor < end <= list.len() {
                        spec_pipelines_shown_in_items(env, list, end, pipeline_id, depth)
                    } else {
                        Set::empty()
                    },
                )
            },
            SpecificDisplayItem::Iframe(info) => spec_pipelines_shown_by_iframe(
                env,
                info.pipeline_id,
                depth,
            ).union(spec_pipelines_shown_in_items(env, list, cursor + 1, pipeline_id, depth)),
            _ => spec_pipelines_shown_in_items(env, list, cursor + 1, pipeline_id, depth),
        }
    }
}

/// The keys of the pipelines that an iframe brings in: the pipeline that it
/// shows, if that is flattened, and what that pipeline shows in turn.
pub open spec fn spec_pipelines_shown_by_iframe(
    env: FlattenEnv,
    pipeline_id: PipelineId,
    depth: nat,
) -> Set<u64>
    decreases depth, 0int, 0int,
{
    match (env.scene.spec_pipeline(pipeline_id), env.scene.spec_display_list(pipeline_id)) {
        (Some(_), Some(list)) => match spec_starting_stacking_context(list) {
            Some((stacking_context, _)) => if depth == 0 {
                Set::empty()
            } else {
                spec_pipelines_shown_in_stacking_context(
                    env,
                    list,
                    1,
                    pipeline_id,
                    stacking_context,
                    (depth - 1) as nat,
                ).insert(pipeline_id.spec_key())
            },
            None => Set::empty(),
        },
        _ => Set::empty(),
    }
}

/// Flattening a stacking context records the epochs of just the pipelines
/// that its iframes show, each as the scene gives it, and leaves every
/// other epoch as it was.
pub proof fn lemma_stacking_context_records_epochs(
    env: FlattenEnv,
    state: FlattenState,
    list: Seq<DisplayItem>,
    cursor: int,
    pipeline_id: PipelineId,
    context_scroll_layer_id: ScrollLayerId,
    reference_frame_relative_offset: LayerPoint,
    top_level: bool,
    bounds: LayerRect,
    stacking_context: StackingContext,
    depth: nat,
)
    requires
        0 <= cursor,
    ensures
        ({
            let after = spec_flatten_stacking_context(
                env,
                state,
                list,
                cursor,
                pipeline_id,
                context_scroll_layer_id,
                reference_frame_relative_offset,
                top_level,
                bounds,
                stacking_context,
                depth,
            ).0;
            &&& spec_epochs_come_from(env.scene, state.epochs, after.epochs)
            &&& after.epochs.dom() == state.epochs.dom().union(
                spec_pipelines_shown_in_stacking_context(
                    env,
                    list,
                    cursor,
                    pipeline_id,
                    stacking_context,
                    depth,
                ),
            )
        }),
    decreases depth, list.len() - cursor, 1int,
{
    if !spec_is_passed_over(env, list, cursor, pipeline_id, stacking_context) {
        lemma_items_record_epochs(
            env,
            spec_open_stacking_context(
                env,
                state,
                pipeline_id,
                context_scroll_layer_id,
                reference_frame_relative_offset,
                top_level,
                bounds,
                stacking_context,
            ),
            list,
            cursor,
            pipeline_id,
            spec_stacking_context_offset(reference_frame_relative_offset, bounds, stacking_context),
            top_level,
            depth,
        );
    } else {
        assert(state.epochs.dom().union(Set::empty()) =~= state.epochs.dom());
    }
}

/// The same for the items of a stacking context.
pub proof fn lemma_items_record_epochs(
    env: FlattenEnv,
    state: FlattenState,
    list: Seq<DisplayItem>,
    cursor: int,
    pipeline_id: PipelineId,
    reference_frame_relative_offset: LayerPoint,
    top_level: bool,
    depth: nat,
)
    requires
        0 <= cursor,
    ensures
        ({
            let after = spec_flatten_items(
                env,
                state,
                list,
                cursor,
                pipeline_id,
                reference_frame_relative_offset,
                top_level,
                depth,
            ).0;
            &&& spec_epochs_come_from(env.scene, state.epochs, after.epochs)
            &&& after.epochs.dom() == state.epochs.dom().union(
                spec_pipelines_shown_in_items(env, list, cursor, pipeline_id, depth),
            )
        }),
    decreases depth, list.len() - cursor, 0int,
{
    let shown = spec_pipelines_shown_in_items(env, list, cursor, pipeline_id, depth);
    if cursor < list.len() && !(list[cursor].item is PopStackingContext) {
        let item = list[cursor];
        let (inner, next) = spec_flatten_item(
            env,
            state,
            list,
            cursor,
            pipeline_id,
            reference_frame_relative_offset,
            depth,
        );
        lemma_items_are_flattened_one_by_one(
            env,
            state,
            list,
            cursor,
            pipeline_id,
            reference_frame_relative_offset,
            top_level,
            depth,
        );
        match item.item {
            SpecificDisplayItem::PushStackingContext(info) => {
                lemma_stacking_context_records_epochs(
                    env,
                    state,
                    list,
                    cursor + 1,
                    pipeline_id,
                    item.scroll_layer_id,
                    reference_frame_relative_offset,
                    false,
                    item.rect,
                    info.stacking_context,
                    depth,
                );
            },
            SpecificDisplayItem::Iframe(info) => {
                lemma_iframe_records_epochs(
                    env,
                    state,
                    info.pipeline_id,
                    spec_with_replacement(state.replacements, item.scroll_layer_id),
                    item.rect,
                    reference_frame_relative_offset,
                    depth,
                );
            },
            _ => {},
        }
        lemma_items_record_epochs(
            env,
            inner,
            list,
            next,
            pipeline_id,
            reference_frame_relative_offset,
            top_level,
            depth,
        );
        let last = spec_flatten_items(
            env,
            inner,
            list,
            next,
            pipeline_id,
            reference_frame_relative_offset,
            top_level,
            depth,
        ).0;
        assert(last.epochs.dom() =~= state.epochs.dom().union(shown));
    } else {
        assert(state.epochs.dom().union(shown) =~= state.epochs.dom());
    }
}

/// The same for an iframe.
pub proof fn lemma_iframe_records_epochs(
    env: FlattenEnv,
    state: FlattenState,
    pipeline_id: PipelineId,
    parent_id: ScrollLayerId,
    bounds: LayerRect,
    reference_frame_relative_offset: LayerPoint,
    depth: nat,
)
    ensures
        ({
            let after = spec_flatten_iframe(
                env,
                state,
                pipeline_id,
                parent_id,
                bounds,
                reference_frame_relative_offset,
                depth,
            );
            &&& spec_epochs_come_from(env.scene, state.epochs, after.epochs)
            &&& after.epochs.dom() == state.epochs.dom().union(
                spec_pipelines_shown_by_iframe(env, pipeline_id, depth),
            )
        }),
    decreases depth, 0int, 0int,
{
    let shown = spec_pipelines_shown_by_iframe(env, pipeline_id, depth);
    match (env.scene.spec_pipeline(pipeline_id), env.scene.spec_display_list(pipeline_id)) {
        (Some(pipeline), Some(list)) => match spec_starting_stacking_context(list) {
            Some((stacking_context, stacking_context_bounds)) => if depth != 0 {
                let rooted = spec_open_iframe(
                    state,
                    pipeline_id,
                    pipeline.epoch,
                    parent_id,
                    bounds,
                    reference_frame_relative_offset,
                    stacking_context_bounds,
                );
                lemma_pipeline_of_its_key(pipeline_id);
                lemma_stacking_context_records_epochs(
                    env,
                    rooted,
                    list,
                    1,
                    pipeline_id,
                    ScrollLayerId::spec_root_scroll_layer(pipeline_id),
                    LayerPoint { x: 0, y: 0 },
                    true,
                    stacking_context_bounds,
                    stacking_context,
                    (depth - 1) as nat,
                );
                let after = spec_flatten_iframe(
                    env,
                    state,
                    pipeline_id,
                    parent_id,
                    bounds,
                    reference_frame_relative_offset,
                    depth,
                );
                assert(spec_scene_gives_epoch(env.scene, pipeline_id.spec_key(), pipeline.epoch));
                assert(after.epochs.dom() =~= state.epochs.dom().union(shown));
            } else {
                assert(state.epochs.dom().union(shown) =~= state.epochs.dom());
            },
            None => {
                assert(state.epochs.dom().union(shown) =~= state.epochs.dom());
            },
        },
        _ => {
            assert(state.epochs.dom().union(shown) =~= state.epochs.dom());
        },
    }
}

} // verus!
