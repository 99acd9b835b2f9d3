//! The list of what a frame draws, in paint order: stacking contexts that
//! open and close, and the primitives inside them, each attached to a node
//! of the clip-scroll tree.

use crate::clip_scroll_tree::{
    ClipScrollNode, ClipScrollTree, DeviceUintRect, DeviceUintSize, NodeKind,
    ReferenceFrameTransform, ResolvedTransform, ViewportSetup,
};
use crate::display_list::{
    BorderDisplayItem, BoxShadowClipMode, ClipRegion, Color, ExtendMode, FontKey, GlyphOptions,
    ImageKey, ImageRendering, ItemRange, MixBlendMode, PipelineId, ScrollLayerId, WebGLContextId,
    YuvColorSpace,
};
use crate::frame::FrameId;
use crate::geometry::{LayerPoint, LayerRect, LayerSize};
use vstd::prelude::*;

verus! {

#[derive(Clone, Copy, Debug, PartialEq, Eq, Structural)]
pub enum AxisDirection {
    Horizontal,
    Vertical,
}

/// One filter as the compositor applies it. A blur is two passes, one
/// along each axis.
#[derive(Clone, Copy, Debug, PartialEq, Eq, Structural)]
pub enum LowLevelFilterOp {
    Blur(i32, AxisDirection),
    Brightness(i32),
    Contrast(i32),
    Grayscale(i32),
    HueRotate(i32),
    Invert(i32),
    Opacity(i32),
    Saturate(i32),
    Sepia(i32),
}

/// How a stacking context is composited onto what lies below it.
#[derive(Debug)]
pub struct CompositeOps {
    pub filters: Vec<LowLevelFilterOp>,
    pub mix_blend_mode: Option<MixBlendMode>,
}

/// The place of a tile in the grid that an image is cut into.
#[derive(Clone, Copy, Debug, PartialEq, Eq, Structural)]
pub struct TileOffset {
    pub x: u32,
    pub y: u32,
}

#[derive(Clone, Copy, Debug, PartialEq, Eq, Structural)]
pub enum PrimitiveFlags {
    Plain,
    /// A scrollbar for the given node, with the radius of its corners.
    Scrollbar(ScrollLayerId, i32),
}

#[derive(Clone, Copy, Debug, PartialEq, Eq, Structural)]
pub enum PrimitiveKind {
    Rectangle { color: Color, flags: PrimitiveFlags },
    Image {
        stretch_size: LayerSize,
        tile_spacing: LayerSize,
        image_key: ImageKey,
        image_rendering: ImageRendering,
        tile_offset: Option<TileOffset>,
    },
    YuvImage {
        y_image_key: ImageKey,
        u_image_key: ImageKey,
        v_image_key: ImageKey,
        color_space: YuvColorSpace,
    },
    Text {
        font_key: FontKey,
        size: i32,
        blur_radius: i32,
        color: Color,
        glyphs: ItemRange,
        glyph_options: Option<GlyphOptions>,
    },
    Gradient {
        start_point: LayerPoint,
        end_point: LayerPoint,
        stops: ItemRange,
        extend_mode: ExtendMode,
    },
    RadialGradient {
        start_center: LayerPoint,
        start_radius: i32,
        end_center: LayerPoint,
        end_radius: i32,
        stops: ItemRange,
        extend_mode: ExtendMode,
    },
    BoxShadow {
        offset: LayerPoint,
        color: Color,
        blur_radius: i32,
        spread_radius: i32,
        border_radius: i32,
        clip_mode: BoxShadowClipMode,
    },
    Border(BorderDisplayItem),
    WebGL { context_id: WebGLContextId },
}

/// One thing to draw: where, clipped by what, attached to which node.
#[derive(Clone, Copy, Debug, PartialEq, Eq, Structural)]
pub struct Primitive {
    pub scroll_layer_id: ScrollLayerId,
    pub rect: LayerRect,
    pub clip: ClipRegion,
    pub kind: PrimitiveKind,
}

/// A stacking context as it was opened. Its filters are the entries of the
/// builder's filter table that `filters` names.
#[derive(Clone, Copy, Debug, PartialEq, Eq, Structural)]
pub struct StackingContextEntry {
    pub offset: LayerPoint,
    pub pipeline_id: PipelineId,
    pub is_top_level: bool,
    pub filters: ItemRange,
    pub mix_blend_mode: Option<MixBlendMode>,
}

#[derive(Clone, Copy, Debug, PartialEq, Eq, Structural)]
pub enum Command {
    PushStackingContext(StackingContextEntry),
    PopStackingContext,
    Primitive(Primitive),
}

#[derive(Clone, Copy, Debug, PartialEq, Eq, Structural)]
pub struct FrameBuilderConfig {
    pub enable_scrollbars: bool,
    pub enable_subpixel_aa: bool,
    pub debug: bool,
}

/// What a builder has gathered for one frame, for the backend to draw.
pub struct BuiltFrame {
    pub frame_id: FrameId,
    pub window_size: DeviceUintSize,
    pub background_color: Option<Color>,
    pub device_pixel_ratio: u32,
    pub commands: Vec<Command>,
    pub filter_ops: Vec<LowLevelFilterOp>,
}

pub struct FrameBuilder {
    pub screen_size: DeviceUintSize,
    pub background_color: Option<Color>,
    pub config: FrameBuilderConfig,
    pub commands: Vec<Command>,
    pub filter_ops: Vec<LowLevelFilterOp>,
    pub reference_frame_stack: Vec<ScrollLayerId>,
}

/// What a builder holds, as mathematical values.
pub ghost struct FrameBuilderView {
    pub screen_size: DeviceUintSize,
    pub background_color: Option<Color>,
    pub config: FrameBuilderConfig,
    pub commands: Seq<Command>,
    pub filter_ops: Seq<LowLevelFilterOp>,
    pub reference_frames: Seq<ScrollLayerId>,
}

/// The commands that draw `primitives`, one after the other.
pub open spec fn spec_draw(primitives: Seq<Primitive>) -> Seq<Command> {
    Seq::new(primitives.len(), |i: int| Command::Primitive(primitives[i]))
}

pub proof fn lemma_draw_concat(a: Seq<Primitive>, b: Seq<Primitive>)
    ensures
        spec_draw(a + b) == spec_draw(a) + spec_draw(b),
{
}

impl FrameBuilderView {
    pub open spec fn with_command(self, command: Command) -> FrameBuilderView {
        FrameBuilderView { commands: self.commands.push(command), ..self }
    }

    pub open spec fn with_commands(self, commands: Seq<Command>) -> FrameBuilderView {
        FrameBuilderView { commands: self.commands + commands, ..self }
    }

    pub open spec fn with_primitive(self, primitive: Primitive) -> FrameBuilderView {
        self.with_command(Command::Primitive(primitive))
    }

    /// The builder after a rectangle of one colour has been handed to it: a
    /// rectangle that is fully transparent is not drawn.
    pub open spec fn with_solid_rectangle(
        self,
        scroll_layer_id: ScrollLayerId,
        rect: LayerRect,
        clip: ClipRegion,
        color: Color,
        flags: PrimitiveFlags,
    ) -> FrameBuilderView {
        self.with_primitives(spec_solid_rectangle(scroll_layer_id, rect, clip, color, flags))
    }

    pub open spec fn with_primitives(self, primitives: Seq<Primitive>) -> FrameBuilderView {
        self.with_commands(spec_draw(primitives))
    }

    /// The builder after a stacking context with the given filters has been
    /// opened: the filters go to the end of the filter table.
    pub open spec fn with_stacking_context(
        self,
        offset: LayerPoint,
        pipeline_id: PipelineId,
        is_top_level: bool,
        filters: Seq<LowLevelFilterOp>,
        mix_blend_mode: Option<MixBlendMode>,
    ) -> FrameBuilderView {
        FrameBuilderView {
            commands: self.commands.push(
                Command::PushStackingContext(
                    StackingContextEntry {
                        offset,
                        pipeline_id,
                        is_top_level,
                        filters: ItemRange {
                            start: self.filter_ops.len() as usize,
                            length: filters.len() as usize,
                        },
                        mix_blend_mode,
                    },
                ),
            ),
            filter_ops: self.filter_ops + filters,
            ..self
        }
    }

    /// Drawing nothing changes nothing, drawing one list after another is
    /// drawing the two as one, and drawing one primitive is drawing the
    /// list of it.
    pub proof fn lemma_with_primitives(self, a: Seq<Primitive>, b: Seq<Primitive>)
        ensures
            self.with_primitives(Seq::empty()) == self,
            self.with_primitives(a).with_primitives(b) == self.with_primitives(a + b),
            forall|p: Primitive| self.with_primitive(p) == #[trigger] self.with_primitives(seq![p]),
    {
        lemma_draw_concat(a, b);
        assert((self.commands + spec_draw(a)) + spec_draw(b) =~= self.commands + (spec_draw(a)
            + spec_draw(b)));
        assert forall|p: Primitive| self.with_primitive(p) == #[trigger] self.with_primitives(
            seq![p],
        ) by {
            assert(self.commands.push(Command::Primitive(p)) =~= self.commands
                + spec_draw(seq![p]));
        }
    }

    pub open spec fn with_reference_frame(self, id: ScrollLayerId) -> FrameBuilderView {
        FrameBuilderView { reference_frames: self.reference_frames.push(id), ..self }
    }

    pub open spec fn without_reference_frame(self) -> FrameBuilderView {
        if self.reference_frames.len() == 0 {
            self
        } else {
            FrameBuilderView { reference_frames: self.reference_frames.drop_last(), ..self }
        }
    }
}

/// What a rectangle of one colour adds to a frame: one primitive, or
/// nothing if the colour is fully transparent.
pub open spec fn spec_solid_rectangle(
    scroll_layer_id: ScrollLayerId,
    rect: LayerRect,
    clip: ClipRegion,
    color: Color,
    flags: PrimitiveFlags,
) -> Seq<Primitive> {
    if color.a == 0 {
        Seq::empty()
    } else {
        seq![
            Primitive {
                scroll_layer_id,
                rect,
                clip,
                kind: PrimitiveKind::Rectangle { color, flags },
            },
        ]
    }
}

/// The matrix that changes nothing.
pub open spec fn spec_identity_transform() -> ReferenceFrameTransform {
    ReferenceFrameTransform {
        offset: LayerPoint { x: 0, y: 0 },
        origin: LayerPoint { x: 0, y: 0 },
        transform: ResolvedTransform::Identity,
        perspective: ResolvedTransform::Identity,
    }
}

/// The clip node with the given name.
pub open spec fn spec_clip_node(
    id: ScrollLayerId,
    parent_id: ScrollLayerId,
    pipeline_id: PipelineId,
    local_viewport_rect: LayerRect,
    content_size: LayerSize,
    clip: ClipRegion,
) -> ClipScrollNode {
    ClipScrollNode {
        id,
        parent: Some(parent_id),
        pipeline_id,
        local_viewport_rect,
        kind: NodeKind::Clip { content_size, clip },
        scroll_offset: LayerPoint { x: 0, y: 0 },
    }
}

/// The two nodes at the root of a tree for `pipeline_id`: its reference
/// frame, and below it the scroll node that holds the whole content.
pub open spec fn spec_root_nodes(
    tree: ClipScrollTree,
    pipeline_id: PipelineId,
    viewport_size: LayerSize,
    content_size: LayerSize,
) -> Seq<ClipScrollNode> {
    let viewport_rect = LayerRect { origin: LayerPoint { x: 0, y: 0 }, size: viewport_size };
    seq![
        tree.spec_reference_frame_node(viewport_rect, spec_identity_transform(), pipeline_id, None),
        spec_clip_node(
            ScrollLayerId::spec_root_scroll_layer(pipeline_id),
            tree.spec_next_reference_frame_id(pipeline_id),
            pipeline_id,
            viewport_rect,
            content_size,
            ClipRegion::spec_simple(viewport_rect),
        ),
    ]
}

impl CompositeOps {
    pub fn new(filters: Vec<LowLevelFilterOp>, mix_blend_mode: Option<MixBlendMode>) -> (ops:
        CompositeOps)
        ensures
            ops.filters == filters,
            ops.mix_blend_mode == mix_blend_mode,
    {
        CompositeOps { filters, mix_blend_mode }
    }

    /// Whether `filters` hold an opacity of nothing, which hides all that
    /// the stacking context holds.
    pub open spec fn spec_will_make_invisible(filters: Seq<LowLevelFilterOp>) -> bool {
        exists|i: int| 0 <= i < filters.len() && #[trigger] filters[i]
            == LowLevelFilterOp::Opacity(0)
    }

    pub fn will_make_invisible(&self) -> (invisible: bool)
        ensures
            invisible == Self::spec_will_make_invisible(self.filters@),
    {
        let mut i: usize = 0;
        while i < self.filters.len()
            invariant
                i <= self.filters.len(),
                forall|j: int| 0 <= j < i ==> self.filters@[j] != LowLevelFilterOp::Opacity(0),
            decreases self.filters.len() - i,
        {
            match self.filters[i] {
                LowLevelFilterOp::Opacity(amount) => {
                    if amount == 0 {
                        return true;
                    }
                },
                _ => {},
            }
            i += 1;
        }
        false
    }
}

impl View for FrameBuilder {
    type V = FrameBuilderView;

    open spec fn view(&self) -> FrameBuilderView {
        FrameBuilderView {
            screen_size: self.screen_size,
            background_color: self.background_color,
            config: self.config,
            commands: self.commands@,
            filter_ops: self.filter_ops@,
            reference_frames: self.reference_frame_stack@,
        }
    }
}

impl FrameBuilder {
    /// A builder that has drawn nothing yet.
    pub fn new(
        screen_size: DeviceUintSize,
        background_color: Option<Color>,
        config: FrameBuilderConfig,
    ) -> (builder: FrameBuilder)
        ensures
            builder@ == (FrameBuilderView {
                screen_size,
                background_color,
                config,
                commands: Seq::empty(),
                filter_ops: Seq::empty(),
                reference_frames: Seq::empty(),
            }),
    {
        FrameBuilder {
            screen_size,
            background_color,
            config,
            commands: Vec::new(),
            filter_ops: Vec::new(),
            reference_frame_stack: Vec::new(),
        }
    }

    /// Hands out what has been gathered, as the frame `frame_id`. The
    /// builder keeps it.
    pub fn build(&self, frame_id: FrameId, device_pixel_ratio: u32) -> (frame: BuiltFrame)
        ensures
            frame.frame_id == frame_id,
            frame.window_size == self.screen_size,
            frame.background_color == self.background_color,
            frame.device_pixel_ratio == device_pixel_ratio,
            frame.commands@ == self.commands@,
            frame.filter_ops@ == self.filter_ops@,
    {
        let mut commands: Vec<Command> = Vec::new();
        let mut i: usize = 0;
        while i < self.commands.len()
            invariant
                i <= self.commands.len(),
                commands@ == self.commands@.take(i as int),
            decreases self.commands.len() - i,
        {
            commands.push(self.commands[i]);
            i += 1;
        }
        let mut filter_ops: Vec<LowLevelFilterOp> = Vec::new();
        let mut j: usize = 0;
        while j < self.filter_ops.len()
            invariant
                j <= self.filter_ops.len(),
                filter_ops@ == self.filter_ops@.take(j as int),
            decreases self.filter_ops.len() - j,
        {
            filter_ops.push(self.filter_ops[j]);
            j += 1;
        }
        BuiltFrame {
            frame_id,
            window_size: self.screen_size,
            background_color: self.background_color,
            device_pixel_ratio,
            commands,
            filter_ops,
        }
    }

    fn add_primitive(&mut self, primitive: Primitive)
        ensures
            final(self)@ == old(self)@.with_primitive(primitive),
    {
        self.commands.push(Command::Primitive(primitive));
    }

    /// Adds a reference frame to the tree and makes it the current one.
    pub fn push_reference_frame(
        &mut self,
        parent_id: Option<ScrollLayerId>,
        pipeline_id: PipelineId,
        rect: &LayerRect,
        transform: &ReferenceFrameTransform,
        clip_scroll_tree: &mut ClipScrollTree,
    ) -> (id: ScrollLayerId)
        ensures
            id == old(clip_scroll_tree).spec_next_reference_frame_id(pipeline_id),
            final(self)@ == old(self)@.with_reference_frame(id),
            final(clip_scroll_tree).nodes@ == old(clip_scroll_tree).nodes@.push(
                old(clip_scroll_tree).spec_reference_frame_node(
                    *rect,
                    *transform,
                    pipeline_id,
                    parent_id,
                ),
            ),
            final(clip_scroll_tree).pending_scroll_offsets
                == old(clip_scroll_tree).pending_scroll_offsets,
            final(clip_scroll_tree).pipelines_to_discard
                == old(clip_scroll_tree).pipelines_to_discard,
            final(clip_scroll_tree).root_reference_frame_id
                == old(clip_scroll_tree).root_reference_frame_id,
            final(clip_scroll_tree).topmost_scroll_layer_id
                == old(clip_scroll_tree).topmost_scroll_layer_id,
            final(clip_scroll_tree).viewport == old(clip_scroll_tree).viewport,
            final(clip_scroll_tree).pan == old(clip_scroll_tree).pan,
    {
        let id = clip_scroll_tree.add_reference_frame(rect, transform, pipeline_id, parent_id);
        self.reference_frame_stack.push(id);
        id
    }

    /// The reference frame that was pushed last and not popped since.
    pub fn current_reference_frame_id(&self) -> (id: ScrollLayerId)
        requires
            self@.reference_frames.len() > 0,
        ensures
            id == self@.reference_frames.last(),
    {
        self.reference_frame_stack[self.reference_frame_stack.len() - 1]
    }

    pub fn pop_reference_frame(&mut self)
        ensures
            final(self)@ == old(self)@.without_reference_frame(),
    {
        let _ = self.reference_frame_stack.pop();
    }

    /// Adds a clip node with the given name to the tree.
    pub fn add_clip_scroll_node(
        &mut self,
        new_node_id: ScrollLayerId,
        parent_id: ScrollLayerId,
        pipeline_id: PipelineId,
        local_viewport_rect: &LayerRect,
        content_size: &LayerSize,
        clip_region: &ClipRegion,
        clip_scroll_tree: &mut ClipScrollTree,
    )
        ensures
            final(self)@ == old(self)@,
            final(clip_scroll_tree).nodes@ == old(clip_scroll_tree).nodes@.push(
                spec_clip_node(
                    new_node_id,
                    parent_id,
                    pipeline_id,
                    *local_viewport_rect,
                    *content_size,
                    *clip_region,
                ),
            ),
            final(clip_scroll_tree).pending_scroll_offsets
                == old(clip_scroll_tree).pending_scroll_offsets,
            final(clip_scroll_tree).pipelines_to_discard
                == old(clip_scroll_tree).pipelines_to_discard,
            final(clip_scroll_tree).root_reference_frame_id
                == old(clip_scroll_tree).root_reference_frame_id,
            final(clip_scroll_tree).topmost_scroll_layer_id
                == old(clip_scroll_tree).topmost_scroll_layer_id,
            final(clip_scroll_tree).viewport == old(clip_scroll_tree).viewport,
            final(clip_scroll_tree).pan == old(clip_scroll_tree).pan,
    {
        clip_scroll_tree.add_node(
            ClipScrollNode {
                id: new_node_id,
                parent: Some(parent_id),
                pipeline_id,
                local_viewport_rect: *local_viewport_rect,
                kind: NodeKind::Clip { content_size: *content_size, clip: *clip_region },
                scroll_offset: LayerPoint::zero(),
            },
        );
    }

    /// Gives the tree its two root nodes for `pipeline_id`, makes the root
    /// reference frame the current one, and hands out the name of the root
    /// scroll node.
    pub fn push_root(
        &mut self,
        pipeline_id: PipelineId,
        viewport_size: &LayerSize,
        content_size: &LayerSize,
        clip_scroll_tree: &mut ClipScrollTree,
    ) -> (id: ScrollLayerId)
        ensures
            id == ScrollLayerId::spec_root_scroll_layer(pipeline_id),
            final(self)@ == old(self)@.with_reference_frame(
                old(clip_scroll_tree).spec_next_reference_frame_id(pipeline_id),
            ),
            final(clip_scroll_tree).nodes@ == old(clip_scroll_tree).nodes@ + spec_root_nodes(
                *old(clip_scroll_tree),
                pipeline_id,
                *viewport_size,
                *content_size,
            ),
            final(clip_scroll_tree).root_reference_frame_id
                == old(clip_scroll_tree).spec_next_reference_frame_id(pipeline_id),
            final(clip_scroll_tree).topmost_scroll_layer_id == id,
            final(clip_scroll_tree).pending_scroll_offsets
                == old(clip_scroll_tree).pending_scroll_offsets,
            final(clip_scroll_tree).pipelines_to_discard
                == old(clip_scroll_tree).pipelines_to_discard,
            final(clip_scroll_tree).viewport == old(clip_scroll_tree).viewport,
            final(clip_scroll_tree).pan == old(clip_scroll_tree).pan,
    {
        let viewport_rect = LayerRect::new(LayerPoint::zero(), *viewport_size);
        let identity = ReferenceFrameTransform {
            offset: LayerPoint::zero(),
            origin: LayerPoint::zero(),
            transform: ResolvedTransform::Identity,
            perspective: ResolvedTransform::Identity,
        };
        let root_reference_frame_id = self.push_reference_frame(
            None,
            pipeline_id,
            &viewport_rect,
            &identity,
            clip_scroll_tree,
        );
        let topmost_scroll_layer_id = ScrollLayerId::root_scroll_layer(pipeline_id);
        clip_scroll_tree.root_reference_frame_id = root_reference_frame_id;
        clip_scroll_tree.topmost_scroll_layer_id = topmost_scroll_layer_id;
        self.add_clip_scroll_node(
            topmost_scroll_layer_id,
            root_reference_frame_id,
            pipeline_id,
            &viewport_rect,
            content_size,
            &ClipRegion::simple(&viewport_rect),
            clip_scroll_tree,
        );
        topmost_scroll_layer_id
    }

    /// Notes in the tree the window that the frame is drawn into.
    pub fn setup_viewport_offset(
        &mut self,
        window_size: DeviceUintSize,
        inner_rect: DeviceUintRect,
        device_pixel_ratio: u32,
        clip_scroll_tree: &mut ClipScrollTree,
    )
        ensures
            final(self)@ == old(self)@,
            final(clip_scroll_tree).viewport == Some(
                ViewportSetup { window_size, inner_rect, device_pixel_ratio },
            ),
            final(clip_scroll_tree).nodes == old(clip_scroll_tree).nodes,
            final(clip_scroll_tree).pending_scroll_offsets
                == old(clip_scroll_tree).pending_scroll_offsets,
            final(clip_scroll_tree).pipelines_to_discard
                == old(clip_scroll_tree).pipelines_to_discard,
            final(clip_scroll_tree).root_reference_frame_id
                == old(clip_scroll_tree).root_reference_frame_id,
            final(clip_scroll_tree).topmost_scroll_layer_id
                == old(clip_scroll_tree).topmost_scroll_layer_id,
            final(clip_scroll_tree).pan == old(clip_scroll_tree).pan,
    {
        clip_scroll_tree.viewport = Some(
            ViewportSetup { window_size, inner_rect, device_pixel_ratio },
        );
    }

    /// Opens a stacking context.
    pub fn push_stacking_context(
        &mut self,
        reference_frame_offset: &LayerPoint,
        pipeline_id: PipelineId,
        is_top_level: bool,
        composite_ops: CompositeOps,
    )
        ensures
            final(self)@ == old(self)@.with_stacking_context(
                *reference_frame_offset,
                pipeline_id,
                is_top_level,
                composite_ops.filters@,
                composite_ops.mix_blend_mode,
            ),
    {
        let mut ops = composite_ops;
        let entry = StackingContextEntry {
            offset: *reference_frame_offset,
            pipeline_id,
            is_top_level,
            filters: ItemRange { start: self.filter_ops.len(), length: ops.filters.len() },
            mix_blend_mode: ops.mix_blend_mode,
        };
        self.filter_ops.append(&mut ops.filters);
        self.commands.push(Command::PushStackingContext(entry));
    }

    /// Closes the stacking context that was opened last.
    pub fn pop_stacking_context(&mut self)
        ensures
            final(self)@ == old(self)@.with_command(Command::PopStackingContext),
    {
        self.commands.push(Command::PopStackingContext);
    }

    /// Draws a rectangle of one colour, unless the colour is fully
    /// transparent.
    pub fn add_solid_rectangle(
        &mut self,
        scroll_layer_id: ScrollLayerId,
        rect: &LayerRect,
        clip_region: &ClipRegion,
        color: &Color,
        flags: PrimitiveFlags,
    )
        ensures
            final(self)@ == old(self)@.with_solid_rectangle(
                scroll_layer_id,
                *rect,
                *clip_region,
                *color,
                flags,
            ),
    {
        proof {
            self@.lemma_with_primitives(Seq::empty(), Seq::empty());
        }
        if color.a == 0 {
            return ;
        }
        self.add_primitive(
            Primitive {
                scroll_layer_id,
                rect: *rect,
                clip: *clip_region,
                kind: PrimitiveKind::Rectangle { color: *color, flags },
            },
        );
    }

    pub fn add_image(
        &mut self,
        scroll_layer_id: ScrollLayerId,
        rect: LayerRect,
        clip_region: &ClipRegion,
        stretch_size: &LayerSize,
        tile_spacing: &LayerSize,
        image_key: ImageKey,
        image_rendering: ImageRendering,
        tile_offset: Option<TileOffset>,
    )
        ensures
            final(self)@ == old(self)@.with_primitive(
                Primitive {
                    scroll_layer_id,
                    rect,
                    clip: *clip_region,
                    kind: PrimitiveKind::Image {
                        stretch_size: *stretch_size,
                        tile_spacing: *tile_spacing,
                        image_key,
                        image_rendering,
                        tile_offset,
                    },
                },
            ),
    {
        self.add_primitive(
            Primitive {
                scroll_layer_id,
                rect,
                clip: *clip_region,
                kind: PrimitiveKind::Image {
                    stretch_size: *stretch_size,
                    tile_spacing: *tile_spacing,
                    image_key,
                    image_rendering,
                    tile_offset,
                },
            },
        );
    }

    pub fn add_yuv_image(
        &mut self,
        scroll_layer_id: ScrollLayerId,
        rect: LayerRect,
        clip_region: &ClipRegion,
        y_image_key: ImageKey,
        u_image_key: ImageKey,
        v_image_key: ImageKey,
        color_space: YuvColorSpace,
    )
        ensures
            final(self)@ == old(self)@.with_primitive(
                Primitive {
                    scroll_layer_id,
                    rect,
                    clip: *clip_region,
                    kind: PrimitiveKind::YuvImage {
                        y_image_key,
                        u_image_key,
                        v_image_key,
                        color_space,
                    },
                },
            ),
    {
        self.add_primitive(
            Primitive {
                scroll_layer_id,
                rect,
                clip: *clip_region,
                kind: PrimitiveKind::YuvImage { y_image_key, u_image_key, v_image_key, color_space },
            },
        );
    }

    pub fn add_text(
        &mut self,
        scroll_layer_id: ScrollLayerId,
        rect: LayerRect,
        clip_region: &ClipRegion,
        font_key: FontKey,
        size: i32,
        blur_radius: i32,
        color: &Color,
        glyphs: ItemRange,
        glyph_options: Option<GlyphOptions>,
    )
        ensures
            final(self)@ == old(self)@.with_primitive(
                Primitive {
                    scroll_layer_id,
                    rect,
                    clip: *clip_region,
                    kind: PrimitiveKind::Text {
                        font_key,
                        size,
                        blur_radius,
                        color: *color,
                        glyphs,
                        glyph_options,
                    },
                },
            ),
    {
        self.add_primitive(
            Primitive {
                scroll_layer_id,
                rect,
                clip: *clip_region,
                kind: PrimitiveKind::Text {
                    font_key,
                    size,
                    blur_radius,
                    color: *color,
                    glyphs,
                    glyph_options,
                },
            },
        );
    }

    pub fn add_gradient(
        &mut self,
        scroll_layer_id: ScrollLayerId,
        rect: LayerRect,
        clip_region: &ClipRegion,
        start_point: LayerPoint,
        end_point: LayerPoint,
        stops: ItemRange,
        extend_mode: ExtendMode,
    )
        ensures
            final(self)@ == old(self)@.with_primitive(
                Primitive {
                    scroll_layer_id,
                    rect,
                    clip: *clip_region,
                    kind: PrimitiveKind::Gradient { start_point, end_point, stops, extend_mode },
                },
            ),
    {
        self.add_primitive(
            Primitive {
                scroll_layer_id,
                rect,
                clip: *clip_region,
                kind: PrimitiveKind::Gradient { start_point, end_point, stops, extend_mode },
            },
        );
    }

    pub fn add_radial_gradient(
        &mut self,
        scroll_layer_id: ScrollLayerId,
        rect: LayerRect,
        clip_region: &ClipRegion,
        start_center: LayerPoint,
        start_radius: i32,
        end_center: LayerPoint,
        end_radius: i32,
        stops: ItemRange,
        extend_mode: ExtendMode,
    )
        ensures
            final(self)@ == old(self)@.with_primitive(
                Primitive {
                    scroll_layer_id,
                    rect,
                    clip: *clip_region,
                    kind: PrimitiveKind::RadialGradient {
                        start_center,
                        start_radius,
                        end_center,
                        end_radius,
                        stops,
                        extend_mode,
                    },
                },
            ),
    {
        self.add_primitive(
            Primitive {
                scroll_layer_id,
                rect,
                clip: *clip_region,
                kind: PrimitiveKind::RadialGradient {
                    start_center,
                    start_radius,
                    end_center,
                    end_radius,
                    stops,
                    extend_mode,
                },
            },
        );
    }

    pub fn add_box_shadow(
        &mut self,
        scroll_layer_id: ScrollLayerId,
        box_bounds: &LayerRect,
        clip_region: &ClipRegion,
        box_offset: &LayerPoint,
        color: &Color,
        blur_radius: i32,
        spread_radius: i32,
        border_radius: i32,
        clip_mode: BoxShadowClipMode,
    )
        ensures
            final(self)@ == old(self)@.with_primitive(
                Primitive {
                    scroll_layer_id,
                    rect: *box_bounds,
                    clip: *clip_region,
                    kind: PrimitiveKind::BoxShadow {
                        offset: *box_offset,
                        color: *color,
                        blur_radius,
                        spread_radius,
                        border_radius,
                        clip_mode,
                    },
                },
            ),
    {
        self.add_primitive(
            Primitive {
                scroll_layer_id,
                rect: *box_bounds,
                clip: *clip_region,
                kind: PrimitiveKind::BoxShadow {
                    offset: *box_offset,
                    color: *color,
                    blur_radius,
                    spread_radius,
                    border_radius,
                    clip_mode,
                },
            },
        );
    }

    pub fn add_border(
        &mut self,
        scroll_layer_id: ScrollLayerId,
        rect: LayerRect,
        clip_region: &ClipRegion,
        border: &BorderDisplayItem,
    )
        ensures
            final(self)@ == old(self)@.with_primitive(
                Primitive {
                    scroll_layer_id,
                    rect,
                    clip: *clip_region,
                    kind: PrimitiveKind::Border(*border),
                },
            ),
    {
        self.add_primitive(
            Primitive {
                scroll_layer_id,
                rect,
                clip: *clip_region,
                kind: PrimitiveKind::Border(*border),
            },
        );
    }

    pub fn add_webgl_rectangle(
        &mut self,
        scroll_layer_id: ScrollLayerId,
        rect: LayerRect,
        clip_region: &ClipRegion,
        context_id: WebGLContextId,
    )
        ensures
            final(self)@ == old(self)@.with_primitive(
                Primitive {
                    scroll_layer_id,
                    rect,
                    clip: *clip_region,
                    kind: PrimitiveKind::WebGL { context_id },
                },
            ),
    {
        self.add_primitive(
            Primitive {
                scroll_layer_id,
                rect,
                clip: *clip_region,
                kind: PrimitiveKind::WebGL { context_id },
            },
        );
    }
}

} // verus!
