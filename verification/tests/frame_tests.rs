use frame_flatten::clip_scroll_tree::{
    ClipScrollNode, DeviceUintPoint, DeviceUintRect, DeviceUintSize, NodeKind,
    ReferenceFrameTransform, ResolvedTransform, ScrollLayerState, ViewportSetup,
};
use frame_flatten::display_list::{
    AmountBinding, AuxiliaryLists, BorderRadius, ClipDisplayItem, ClipRegion, Color,
    ComplexClipRegion, DisplayItem, Epoch, FilterOp, IframeDisplayItem, ImageDisplayItem, ImageKey,
    ImageRendering, ItemRange, MixBlendMode, PipelineId, PushStackingContextDisplayItem,
    RectangleDisplayItem, ScrollLayerId, ScrollPolicy, SpecificDisplayItem, StackingContext,
    TransformBinding, TransformId, WebGLContextId, WebGLDisplayItem,
};
use frame_flatten::frame::{FlattenContext, Frame, FrameId};
use frame_flatten::frame_builder::{
    Command, FrameBuilder, FrameBuilderConfig, LowLevelFilterOp, Primitive, PrimitiveFlags,
    PrimitiveKind, StackingContextEntry, TileOffset,
};
use frame_flatten::geometry::{LayerPoint, LayerRect, LayerSize};
use frame_flatten::resource_cache::{ImageDescriptor, ResourceCache};
use frame_flatten::scene::Scene;

const ROOT: PipelineId = PipelineId(0, 1);
const CHILD: PipelineId = PipelineId(0, 2);
const RED: Color = Color { r: 255, g: 0, b: 0, a: 255 };
const WHITE: Color = Color { r: 255, g: 255, b: 255, a: 255 };

fn rect(x: i32, y: i32, w: i32, h: i32) -> LayerRect {
    LayerRect::new(LayerPoint::new(x, y), LayerSize::new(w, h))
}

fn config(enable_scrollbars: bool) -> FrameBuilderConfig {
    FrameBuilderConfig { enable_scrollbars, enable_subpixel_aa: false, debug: false }
}

fn window() -> DeviceUintSize {
    DeviceUintSize { width: 800, height: 600 }
}

fn inner() -> DeviceUintRect {
    DeviceUintRect { origin: DeviceUintPoint { x: 0, y: 0 }, size: window() }
}

fn root_layer() -> ScrollLayerId {
    ScrollLayerId::root_scroll_layer(ROOT)
}

fn plain() -> StackingContext {
    StackingContext {
        scroll_policy: ScrollPolicy::Scrollable,
        transform: None,
        perspective: None,
        mix_blend_mode: MixBlendMode::Normal,
        filters: ItemRange::empty(),
    }
}

fn fixed() -> StackingContext {
    StackingContext { scroll_policy: ScrollPolicy::Fixed, ..plain() }
}

fn item(specific: SpecificDisplayItem, bounds: LayerRect, layer: ScrollLayerId) -> DisplayItem {
    DisplayItem { item: specific, rect: bounds, clip: ClipRegion::simple(&bounds), scroll_layer_id: layer }
}

fn push(sc: StackingContext, bounds: LayerRect, layer: ScrollLayerId) -> DisplayItem {
    item(
        SpecificDisplayItem::PushStackingContext(PushStackingContextDisplayItem {
            stacking_context: sc,
        }),
        bounds,
        layer,
    )
}

fn pop() -> DisplayItem {
    item(SpecificDisplayItem::PopStackingContext, rect(0, 0, 0, 0), root_layer())
}

fn rectangle(bounds: LayerRect, color: Color, layer: ScrollLayerId) -> DisplayItem {
    item(SpecificDisplayItem::Rectangle(RectangleDisplayItem { color }), bounds, layer)
}

fn webgl(bounds: LayerRect, layer: ScrollLayerId) -> DisplayItem {
    item(
        SpecificDisplayItem::WebGL(WebGLDisplayItem { context_id: WebGLContextId(5) }),
        bounds,
        layer,
    )
}

fn root_bounds() -> LayerRect {
    rect(0, 0, 6000, 18000)
}

fn scene_with(root_list: Vec<DisplayItem>, background: Option<Color>) -> Scene {
    let mut scene = Scene::new();
    scene.set_root_pipeline_id(ROOT);
    scene.set_display_list(
        ROOT,
        Epoch(3),
        root_list,
        background,
        LayerSize::new(6000, 6000),
        AuxiliaryLists::new(),
    );
    scene
}

fn created(scene: &Scene, cache: &ResourceCache, scrollbars: bool) -> Frame {
    let mut frame = Frame::new(config(scrollbars));
    frame.create(scene, cache, window(), inner(), 60);
    frame
}

fn commands(frame: &Frame) -> Vec<Command> {
    frame.frame_builder.as_ref().expect("no builder").commands.clone()
}

fn primitives(frame: &Frame) -> Vec<Primitive> {
    commands(frame)
        .iter()
        .filter_map(|c| match c {
            Command::Primitive(p) => Some(*p),
            _ => None,
        })
        .collect()
}

fn solid(layer: ScrollLayerId, bounds: LayerRect, clip: ClipRegion, color: Color) -> Command {
    Command::Primitive(Primitive {
        scroll_layer_id: layer,
        rect: bounds,
        clip,
        kind: PrimitiveKind::Rectangle { color, flags: PrimitiveFlags::Plain },
    })
}

fn opened(offset: LayerPoint, pipeline_id: PipelineId, is_top_level: bool) -> Command {
    Command::PushStackingContext(StackingContextEntry {
        offset,
        pipeline_id,
        is_top_level,
        filters: ItemRange::new(0, 0),
        mix_blend_mode: None,
    })
}

fn root_nodes() -> Vec<ClipScrollNode> {
    let viewport = rect(0, 0, 6000, 6000);
    vec![
        ClipScrollNode {
            id: ScrollLayerId::ReferenceFrame(0, ROOT),
            parent: None,
            pipeline_id: ROOT,
            local_viewport_rect: viewport,
            kind: NodeKind::ReferenceFrame(ReferenceFrameTransform {
                offset: LayerPoint::zero(),
                origin: LayerPoint::zero(),
                transform: ResolvedTransform::Identity,
                perspective: ResolvedTransform::Identity,
            }),
            scroll_offset: LayerPoint::zero(),
        },
        ClipScrollNode {
            id: root_layer(),
            parent: Some(ScrollLayerId::ReferenceFrame(0, ROOT)),
            pipeline_id: ROOT,
            local_viewport_rect: viewport,
            kind: NodeKind::Clip {
                content_size: root_bounds().size,
                clip: ClipRegion::simple(&viewport),
            },
            scroll_offset: LayerPoint::zero(),
        },
    ]
}

#[test]
fn frame_ids_are_ordered_by_their_number() {
    assert!(FrameId(1) < FrameId(2));
    assert!(FrameId(2) >= FrameId(2));
    assert_eq!(FrameId(3), FrameId(3));
}

#[test]
fn new_frame_is_empty() {
    let frame = Frame::new(config(true));
    assert_eq!(frame.id, FrameId(0));
    assert!(frame.frame_builder.is_none());
    assert!(frame.pipeline_epoch_map.is_empty());
    assert!(frame.pipeline_auxiliary_lists.is_empty());
    assert!(frame.clip_scroll_tree.nodes.is_empty());
    assert_eq!(frame.frame_builder_config, config(true));
}

#[test]
fn reset_counts_the_frame_and_clears_the_epochs() {
    let mut frame = Frame::new(config(false));
    frame.pipeline_epoch_map.insert(ROOT.key(), Epoch(1));
    let states = frame.reset();
    assert!(states.is_empty());
    assert_eq!(frame.id, FrameId(1));
    assert!(frame.pipeline_epoch_map.is_empty());
    frame.pipeline_epoch_map.insert(CHILD.key(), Epoch(2));
    frame.reset();
    assert_eq!(frame.id, FrameId(2));
    assert!(frame.pipeline_epoch_map.is_empty());
}

#[test]
fn create_flattens_a_simple_scene() {
    let box_rect = rect(600, 600, 3000, 3000);
    let scene = scene_with(
        vec![push(plain(), root_bounds(), root_layer()), rectangle(box_rect, RED, root_layer()), pop()],
        None,
    );
    let frame = created(&scene, &ResourceCache::new(), false);
    assert_eq!(frame.id, FrameId(1));
    assert_eq!(
        commands(&frame),
        vec![
            opened(LayerPoint::zero(), ROOT, true),
            solid(root_layer(), box_rect, ClipRegion::simple(&box_rect), RED),
            Command::PopStackingContext,
        ]
    );
    assert_eq!(frame.clip_scroll_tree.nodes, root_nodes());
    assert_eq!(frame.pipeline_epoch_map.len(), 1);
    assert_eq!(frame.pipeline_epoch_map.get(&ROOT.key()), Some(&Epoch(3)));
    assert_eq!(frame.pipeline_auxiliary_lists.len(), 1);
    assert_eq!(frame.clip_scroll_tree.root_reference_frame_id, ScrollLayerId::ReferenceFrame(0, ROOT));
    assert_eq!(frame.clip_scroll_tree.topmost_scroll_layer_id, root_layer());
    assert_eq!(
        frame.clip_scroll_tree.viewport,
        Some(ViewportSetup { window_size: window(), inner_rect: inner(), device_pixel_ratio: 60 })
    );
    let builder = frame.frame_builder.as_ref().unwrap();
    assert_eq!(builder.screen_size, window());
    assert_eq!(builder.background_color, None);
    assert_eq!(builder.reference_frame_stack, vec![ScrollLayerId::ReferenceFrame(0, ROOT)]);
}

#[test]
fn create_without_root_pipeline_changes_nothing() {
    let mut scene = Scene::new();
    scene.set_display_list(
        ROOT,
        Epoch(3),
        vec![push(plain(), root_bounds(), root_layer()), pop()],
        None,
        LayerSize::new(6000, 6000),
        AuxiliaryLists::new(),
    );
    let frame = created(&scene, &ResourceCache::new(), false);
    assert_eq!(frame.id, FrameId(0));
    assert!(frame.frame_builder.is_none());
    assert!(frame.pipeline_auxiliary_lists.is_empty());
}

#[test]
fn create_with_unknown_root_pipeline_changes_nothing() {
    let mut scene = Scene::new();
    scene.set_root_pipeline_id(CHILD);
    scene.set_display_list(
        ROOT,
        Epoch(3),
        vec![push(plain(), root_bounds(), root_layer()), pop()],
        None,
        LayerSize::new(6000, 6000),
        AuxiliaryLists::new(),
    );
    let frame = created(&scene, &ResourceCache::new(), false);
    assert_eq!(frame.id, FrameId(0));
    assert!(frame.frame_builder.is_none());
}

#[test]
fn create_for_a_window_without_size_changes_nothing() {
    let scene = scene_with(vec![push(plain(), root_bounds(), root_layer()), pop()], None);
    let mut frame = Frame::new(config(false));
    frame.create(&scene, &ResourceCache::new(), DeviceUintSize { width: 0, height: 600 }, inner(), 60);
    assert_eq!(frame.id, FrameId(0));
    assert!(frame.frame_builder.is_none());
    frame.create(&scene, &ResourceCache::new(), DeviceUintSize { width: 800, height: 0 }, inner(), 60);
    assert_eq!(frame.id, FrameId(0));
    assert!(frame.frame_builder.is_none());
}

#[test]
fn create_from_a_list_without_leading_stacking_context_changes_nothing() {
    let scene = scene_with(vec![rectangle(rect(0, 0, 10, 10), RED, root_layer()), pop()], None);
    let mut frame = Frame::new(config(false));
    frame.pipeline_epoch_map.insert(CHILD.key(), Epoch(8));
    frame.create(&scene, &ResourceCache::new(), window(), inner(), 60);
    assert_eq!(frame.id, FrameId(0));
    assert!(frame.frame_builder.is_none());
    assert_eq!(frame.pipeline_epoch_map.get(&CHILD.key()), Some(&Epoch(8)));
    assert!(frame.pipeline_auxiliary_lists.is_empty());
}

#[test]
fn empty_stacking_context_adds_nothing_but_is_passed_over() {
    let moved = StackingContext { transform: Some(TransformBinding::Value(TransformId(1))), ..fixed() };
    let box_rect = rect(0, 0, 60, 60);
    let scene = scene_with(
        vec![
            push(plain(), root_bounds(), root_layer()),
            push(moved, rect(5, 5, 50, 50), root_layer()),
            pop(),
            rectangle(box_rect, RED, root_layer()),
            pop(),
        ],
        None,
    );
    let frame = created(&scene, &ResourceCache::new(), false);
    assert_eq!(
        commands(&frame),
        vec![
            opened(LayerPoint::zero(), ROOT, true),
            solid(root_layer(), box_rect, ClipRegion::simple(&box_rect), RED),
            Command::PopStackingContext,
        ]
    );
    assert_eq!(frame.clip_scroll_tree.nodes, root_nodes());
}

#[test]
fn empty_root_stacking_context_draws_nothing() {
    let scene = scene_with(vec![push(plain(), root_bounds(), root_layer()), pop()], Some(WHITE));
    let frame = created(&scene, &ResourceCache::new(), true);
    assert!(commands(&frame).is_empty());
    assert_eq!(frame.clip_scroll_tree.nodes, root_nodes());
    assert_eq!(frame.id, FrameId(1));
}

#[test]
fn background_color_is_drawn_below_the_content() {
    let box_rect = rect(0, 0, 60, 60);
    let bounds = rect(30, 40, 6000, 18000);
    let scene = scene_with(
        vec![push(plain(), bounds, root_layer()), rectangle(box_rect, RED, root_layer()), pop()],
        Some(WHITE),
    );
    let frame = created(&scene, &ResourceCache::new(), false);
    assert_eq!(frame.frame_builder.as_ref().unwrap().background_color, Some(WHITE));
    assert_eq!(
        commands(&frame),
        vec![
            opened(LayerPoint::new(30, 40), ROOT, true),
            solid(root_layer(), bounds, ClipRegion::simple(&bounds), WHITE),
            solid(root_layer(), box_rect, ClipRegion::simple(&box_rect), RED),
            Command::PopStackingContext,
        ]
    );
}

#[test]
fn transparent_background_is_not_drawn() {
    let box_rect = rect(0, 0, 60, 60);
    let clear = Color { r: 255, g: 255, b: 255, a: 0 };
    let scene = scene_with(
        vec![
            push(plain(), root_bounds(), root_layer()),
            rectangle(box_rect, RED, root_layer()),
            pop(),
        ],
        Some(clear),
    );
    let frame = created(&scene, &ResourceCache::new(), false);
    assert_eq!(frame.frame_builder.as_ref().unwrap().background_color, None);
    assert_eq!(
        commands(&frame),
        vec![
            opened(LayerPoint::zero(), ROOT, true),
            solid(root_layer(), box_rect, ClipRegion::simple(&box_rect), RED),
            Command::PopStackingContext,
        ]
    );
}

#[test]
fn transparent_rectangle_is_not_drawn() {
    let clear = Color { r: 1, g: 2, b: 3, a: 0 };
    let scene = scene_with(
        vec![
            push(plain(), root_bounds(), root_layer()),
            rectangle(rect(0, 0, 60, 60), clear, root_layer()),
            pop(),
        ],
        None,
    );
    let frame = created(&scene, &ResourceCache::new(), false);
    assert!(primitives(&frame).is_empty());
    assert_eq!(commands(&frame).len(), 2);
}

#[test]
fn scrollbar_is_drawn_last_at_the_root() {
    let box_rect = rect(0, 0, 60, 60);
    let scene = scene_with(
        vec![
            push(plain(), root_bounds(), root_layer()),
            push(plain(), rect(0, 0, 100, 100), root_layer()),
            rectangle(box_rect, RED, root_layer()),
            pop(),
            pop(),
        ],
        None,
    );
    let frame = created(&scene, &ResourceCache::new(), true);
    let bar = rect(0, 0, 600, 4200);
    assert_eq!(
        commands(&frame),
        vec![
            opened(LayerPoint::zero(), ROOT, true),
            opened(LayerPoint::zero(), ROOT, false),
            solid(root_layer(), box_rect, ClipRegion::simple(&box_rect), RED),
            Command::PopStackingContext,
            Command::Primitive(Primitive {
                scroll_layer_id: root_layer(),
                rect: bar,
                clip: ClipRegion::simple(&bar),
                kind: PrimitiveKind::Rectangle {
                    color: Color { r: 77, g: 77, b: 77, a: 153 },
                    flags: PrimitiveFlags::Scrollbar(root_layer(), 240),
                },
            }),
            Command::PopStackingContext,
        ]
    );
}

#[test]
fn offsets_of_nested_stacking_contexts_add_up() {
    let scene = scene_with(
        vec![
            push(plain(), rect(10, 20, 6000, 6000), root_layer()),
            push(plain(), rect(1, 2, 100, 100), root_layer()),
            push(plain(), rect(100, 200, 100, 100), root_layer()),
            webgl(rect(0, 0, 5, 5), root_layer()),
            pop(),
            pop(),
            pop(),
        ],
        None,
    );
    let frame = created(&scene, &ResourceCache::new(), false);
    let cmds = commands(&frame);
    assert_eq!(cmds.len(), 7);
    assert_eq!(cmds[0], opened(LayerPoint::new(10, 20), ROOT, true));
    assert_eq!(cmds[1], opened(LayerPoint::new(11, 22), ROOT, false));
    assert_eq!(cmds[2], opened(LayerPoint::new(111, 222), ROOT, false));
    assert_eq!(
        cmds[3],
        Command::Primitive(Primitive {
            scroll_layer_id: root_layer(),
            rect: rect(0, 0, 5, 5),
            clip: ClipRegion::simple(&rect(0, 0, 5, 5)),
            kind: PrimitiveKind::WebGL { context_id: WebGLContextId(5) },
        })
    );
}

#[test]
fn running_offset_saturates() {
    let scene = scene_with(
        vec![
            push(plain(), rect(i32::MAX, i32::MIN, 10, 10), root_layer()),
            push(plain(), rect(5, -5, 10, 10), root_layer()),
            webgl(rect(0, 0, 5, 5), root_layer()),
            pop(),
            pop(),
        ],
        None,
    );
    let frame = created(&scene, &ResourceCache::new(), false);
    assert_eq!(commands(&frame)[1], opened(LayerPoint::new(i32::MAX, i32::MIN), ROOT, false));
}

#[test]
fn invisible_stacking_context_is_passed_over() {
    let mut lists = AuxiliaryLists::new();
    lists.filters.push(FilterOp::Opacity(AmountBinding::Value(0)));
    let hidden = StackingContext { filters: ItemRange::new(0, 1), ..plain() };
    let box_rect = rect(0, 0, 60, 60);
    let mut scene = Scene::new();
    scene.set_root_pipeline_id(ROOT);
    scene.set_display_list(
        ROOT,
        Epoch(1),
        vec![
            push(plain(), root_bounds(), root_layer()),
            push(hidden, rect(0, 0, 10, 10), root_layer()),
            rectangle(rect(1, 1, 5, 5), WHITE, root_layer()),
            push(plain(), rect(0, 0, 10, 10), root_layer()),
            pop(),
            pop(),
            rectangle(box_rect, RED, root_layer()),
            pop(),
        ],
        None,
        LayerSize::new(6000, 6000),
        lists,
    );
    let frame = created(&scene, &ResourceCache::new(), false);
    assert_eq!(
        commands(&frame),
        vec![
            opened(LayerPoint::zero(), ROOT, true),
            solid(root_layer(), box_rect, ClipRegion::simple(&box_rect), RED),
            Command::PopStackingContext,
        ]
    );
}

#[test]
fn filters_and_blend_mode_are_recorded_with_the_stacking_context() {
    let mut lists = AuxiliaryLists::new();
    lists.filters.push(FilterOp::Blur(7));
    lists.filters.push(FilterOp::Opacity(AmountBinding::Value(30)));
    let filtered = StackingContext {
        filters: ItemRange::new(0, 2),
        mix_blend_mode: MixBlendMode::Darken,
        ..plain()
    };
    let again = StackingContext { filters: ItemRange::new(1, 1), ..plain() };
    let mut scene = Scene::new();
    scene.set_root_pipeline_id(ROOT);
    scene.set_display_list(
        ROOT,
        Epoch(1),
        vec![
            push(filtered, root_bounds(), root_layer()),
            push(again, rect(0, 0, 1, 1), root_layer()),
            webgl(rect(0, 0, 5, 5), root_layer()),
            pop(),
            pop(),
        ],
        None,
        LayerSize::new(6000, 6000),
        lists,
    );
    let frame = created(&scene, &ResourceCache::new(), false);
    let builder = frame.frame_builder.as_ref().unwrap();
    assert_eq!(
        builder.commands[0],
        Command::PushStackingContext(StackingContextEntry {
            offset: LayerPoint::zero(),
            pipeline_id: ROOT,
            is_top_level: true,
            filters: ItemRange::new(0, 3),
            mix_blend_mode: Some(MixBlendMode::Darken),
        })
    );
    assert_eq!(
        builder.commands[1],
        Command::PushStackingContext(StackingContextEntry {
            offset: LayerPoint::zero(),
            pipeline_id: ROOT,
            is_top_level: false,
            filters: ItemRange::new(3, 1),
            mix_blend_mode: None,
        })
    );
    assert_eq!(
        builder.filter_ops,
        vec![
            LowLevelFilterOp::Blur(7, frame_flatten::frame_builder::AxisDirection::Horizontal),
            LowLevelFilterOp::Blur(7, frame_flatten::frame_builder::AxisDirection::Vertical),
            LowLevelFilterOp::Opacity(30),
            LowLevelFilterOp::Opacity(30),
        ]
    );
}

#[test]
fn replacement_lookup_reads_only_the_top_entry() {
    let scene = Scene::new();
    let cache = ResourceCache::new();
    let a = ScrollLayerId::Clip(1, ROOT);
    let b = ScrollLayerId::Clip(2, ROOT);
    let c = ScrollLayerId::Clip(3, ROOT);
    let frame_a = ScrollLayerId::ReferenceFrame(7, ROOT);
    let frame_b = ScrollLayerId::ReferenceFrame(8, ROOT);
    let mut context = FlattenContext::new(&scene, FrameBuilder::new(window(), None, config(false)), &cache);
    assert_eq!(context.scroll_layer_id_with_replacement(a), a);
    context.replacements.push((a, frame_a));
    assert_eq!(context.scroll_layer_id_with_replacement(a), frame_a);
    assert_eq!(context.scroll_layer_id_with_replacement(b), b);
    context.replacements.push((b, frame_b));
    assert_eq!(context.scroll_layer_id_with_replacement(b), frame_b);
    assert_eq!(context.scroll_layer_id_with_replacement(a), a);
    assert_eq!(context.scroll_layer_id_with_replacement(c), c);
    context.replacements.pop();
    assert_eq!(context.scroll_layer_id_with_replacement(a), frame_a);
    assert_eq!(context.scroll_layer_id_with_replacement(b), b);
}

#[test]
fn fixed_stacking_context_redirects_to_the_reference_frame() {
    let a = ScrollLayerId::Clip(1, ROOT);
    let scene = scene_with(
        vec![
            push(plain(), root_bounds(), root_layer()),
            push(fixed(), rect(0, 0, 10, 10), a),
            webgl(rect(0, 0, 1, 1), a),
            webgl(rect(0, 0, 2, 2), root_layer()),
            pop(),
            webgl(rect(0, 0, 3, 3), a),
            pop(),
        ],
        None,
    );
    let frame = created(&scene, &ResourceCache::new(), false);
    let layers: Vec<ScrollLayerId> = primitives(&frame).iter().map(|p| p.scroll_layer_id).collect();
    assert_eq!(layers, vec![ScrollLayerId::ReferenceFrame(0, ROOT), root_layer(), a]);
}

#[test]
fn nested_fixed_stacking_contexts_redirect_only_the_innermost() {
    let a = ScrollLayerId::Clip(1, ROOT);
    let b = ScrollLayerId::Clip(2, ROOT);
    let scene = scene_with(
        vec![
            push(plain(), root_bounds(), root_layer()),
            push(fixed(), rect(0, 0, 10, 10), a),
            push(fixed(), rect(0, 0, 10, 10), b),
            webgl(rect(0, 0, 1, 1), a),
            webgl(rect(0, 0, 2, 2), b),
            pop(),
            webgl(rect(0, 0, 3, 3), a),
            webgl(rect(0, 0, 4, 4), b),
            pop(),
            pop(),
        ],
        None,
    );
    let frame = created(&scene, &ResourceCache::new(), false);
    let layers: Vec<ScrollLayerId> = primitives(&frame).iter().map(|p| p.scroll_layer_id).collect();
    let root_frame = ScrollLayerId::ReferenceFrame(0, ROOT);
    assert_eq!(layers, vec![a, root_frame, root_frame, b]);
}

#[test]
fn transform_opens_a_reference_frame() {
    let a = ScrollLayerId::Clip(1, ROOT);
    let moved = StackingContext {
        transform: Some(TransformBinding::Value(TransformId(11))),
        perspective: Some(TransformId(12)),
        ..plain()
    };
    let scene = scene_with(
        vec![
            push(plain(), rect(3, 4, 6000, 18000), root_layer()),
            push(moved, rect(5, 6, 20, 30), a),
            webgl(rect(0, 0, 1, 1), a),
            push(plain(), rect(7, 8, 1, 1), a),
            pop(),
            push(plain(), rect(7, 8, 1, 1), a),
            webgl(rect(0, 0, 2, 2), root_layer()),
            pop(),
            pop(),
            webgl(rect(0, 0, 3, 3), a),
            pop(),
        ],
        None,
    );
    let frame = created(&scene, &ResourceCache::new(), false);
    let new_frame = ScrollLayerId::ReferenceFrame(2, ROOT);
    assert_eq!(frame.clip_scroll_tree.nodes.len(), 3);
    assert_eq!(
        frame.clip_scroll_tree.nodes[2],
        ClipScrollNode {
            id: new_frame,
            parent: Some(a),
            pipeline_id: ROOT,
            local_viewport_rect: rect(0, 0, 20, 30),
            kind: NodeKind::ReferenceFrame(ReferenceFrameTransform {
                offset: LayerPoint::new(3, 4),
                origin: LayerPoint::new(5, 6),
                transform: ResolvedTransform::Matrix(TransformId(11)),
                perspective: ResolvedTransform::Matrix(TransformId(12)),
            }),
            scroll_offset: LayerPoint::zero(),
        }
    );
    let cmds = commands(&frame);
    assert_eq!(cmds[1], opened(LayerPoint::zero(), ROOT, false));
    assert_eq!(cmds[3], opened(LayerPoint::new(7, 8), ROOT, false));
    let layers: Vec<ScrollLayerId> = primitives(&frame).iter().map(|p| p.scroll_layer_id).collect();
    assert_eq!(layers, vec![new_frame, root_layer(), a]);
    let builder = frame.frame_builder.as_ref().unwrap();
    assert_eq!(builder.reference_frame_stack, vec![ScrollLayerId::ReferenceFrame(0, ROOT)]);
}

#[test]
fn fixed_content_below_a_transform_attaches_to_its_reference_frame() {
    let a = ScrollLayerId::Clip(1, ROOT);
    let b = ScrollLayerId::Clip(2, ROOT);
    let moved = StackingContext { perspective: Some(TransformId(12)), ..plain() };
    let scene = scene_with(
        vec![
            push(plain(), root_bounds(), root_layer()),
            push(moved, rect(5, 6, 20, 30), a),
            push(fixed(), rect(0, 0, 1, 1), b),
            webgl(rect(0, 0, 1, 1), b),
            pop(),
            pop(),
            pop(),
        ],
        None,
    );
    let frame = created(&scene, &ResourceCache::new(), false);
    let layers: Vec<ScrollLayerId> = primitives(&frame).iter().map(|p| p.scroll_layer_id).collect();
    assert_eq!(layers, vec![ScrollLayerId::ReferenceFrame(2, ROOT)]);
    assert_eq!(
        frame.clip_scroll_tree.nodes[2].kind,
        NodeKind::ReferenceFrame(ReferenceFrameTransform {
            offset: LayerPoint::zero(),
            origin: LayerPoint::new(5, 6),
            transform: ResolvedTransform::Identity,
            perspective: ResolvedTransform::Matrix(TransformId(12)),
        })
    );
}

#[test]
fn clip_item_adds_a_clip_node() {
    let a = ScrollLayerId::Clip(9, ROOT);
    let clip_rect = rect(10, 20, 300, 400);
    let scene = scene_with(
        vec![
            push(plain(), rect(1, 2, 6000, 18000), root_layer()),
            item(
                SpecificDisplayItem::Clip(ClipDisplayItem {
                    id: a,
                    content_size: LayerSize::new(300, 900),
                }),
                clip_rect,
                root_layer(),
            ),
            webgl(rect(0, 0, 1, 1), a),
            pop(),
        ],
        None,
    );
    let frame = created(&scene, &ResourceCache::new(), false);
    assert_eq!(frame.clip_scroll_tree.nodes.len(), 3);
    assert_eq!(
        frame.clip_scroll_tree.nodes[2],
        ClipScrollNode {
            id: a,
            parent: Some(root_layer()),
            pipeline_id: ROOT,
            local_viewport_rect: rect(11, 22, 300, 400),
            kind: NodeKind::Clip {
                content_size: LayerSize::new(300, 900),
                clip: ClipRegion::simple(&clip_rect),
            },
            scroll_offset: LayerPoint::zero(),
        }
    );
    assert_eq!(primitives(&frame).len(), 1);
    assert_eq!(primitives(&frame)[0].scroll_layer_id, a);
}

#[test]
fn rectangle_under_a_rounded_clip_is_split() {
    let mut lists = AuxiliaryLists::new();
    let r = LayerSize::new(10, 10);
    lists.complex_clip_regions.push(ComplexClipRegion {
        rect: rect(0, 0, 100, 100),
        radii: BorderRadius { top_left: r, top_right: r, bottom_left: r, bottom_right: r },
    });
    let mut clipped = rectangle(rect(0, 0, 100, 100), RED, root_layer());
    clipped.clip.complex = ItemRange::new(0, 1);
    let mut scene = Scene::new();
    scene.set_root_pipeline_id(ROOT);
    scene.set_display_list(
        ROOT,
        Epoch(1),
        vec![push(plain(), root_bounds(), root_layer()), clipped, pop()],
        None,
        LayerSize::new(6000, 6000),
        lists,
    );
    let frame = created(&scene, &ResourceCache::new(), false);
    assert_eq!(
        commands(&frame),
        vec![
            opened(LayerPoint::zero(), ROOT, true),
            solid(root_layer(), rect(10, 10, 80, 80), ClipRegion::simple(&rect(0, 0, 100, 100)), RED),
            solid(root_layer(), rect(0, 0, 10, 100), clipped.clip, RED),
            solid(root_layer(), rect(10, 0, 80, 10), clipped.clip, RED),
            solid(root_layer(), rect(10, 90, 80, 10), clipped.clip, RED),
            solid(root_layer(), rect(90, 0, 10, 100), clipped.clip, RED),
            Command::PopStackingContext,
        ]
    );
}

#[test]
fn rectangle_outside_its_clip_is_drawn_under_the_full_clip() {
    let mut outside = rectangle(rect(0, 0, 10, 10), RED, root_layer());
    outside.clip = ClipRegion::simple(&rect(50, 50, 10, 10));
    let scene = scene_with(vec![push(plain(), root_bounds(), root_layer()), outside, pop()], None);
    let frame = created(&scene, &ResourceCache::new(), false);
    assert_eq!(commands(&frame)[1], solid(root_layer(), rect(0, 0, 10, 10), outside.clip, RED));
}

fn image_item(key: ImageKey, bounds: LayerRect) -> DisplayItem {
    item(
        SpecificDisplayItem::Image(ImageDisplayItem {
            image_key: key,
            stretch_size: bounds.size,
            tile_spacing: LayerSize::zero(),
            image_rendering: ImageRendering::Pixelated,
        }),
        bounds,
        root_layer(),
    )
}

#[test]
fn untiled_image_is_one_primitive() {
    let key = ImageKey(1, 1);
    let bounds = rect(0, 0, 600_000, 600_000);
    let mut cache = ResourceCache::new();
    cache.add_image_template(key, ImageDescriptor { width: 10_000, height: 10_000, is_opaque: true }, None);
    let scene = scene_with(
        vec![push(plain(), root_bounds(), root_layer()), image_item(key, bounds), pop()],
        None,
    );
    let frame = created(&scene, &cache, false);
    assert_eq!(
        primitives(&frame),
        vec![Primitive {
            scroll_layer_id: root_layer(),
            rect: bounds,
            clip: ClipRegion::simple(&bounds),
            kind: PrimitiveKind::Image {
                stretch_size: bounds.size,
                tile_spacing: LayerSize::zero(),
                image_key: key,
                image_rendering: ImageRendering::Pixelated,
                tile_offset: None,
            },
        }]
    );
}

#[test]
fn unknown_image_is_drawn_as_it_stands() {
    let bounds = rect(0, 0, 600, 600);
    let scene = scene_with(
        vec![push(plain(), root_bounds(), root_layer()), image_item(ImageKey(9, 9), bounds), pop()],
        None,
    );
    let frame = created(&scene, &ResourceCache::new(), false);
    let prims = primitives(&frame);
    assert_eq!(prims.len(), 1);
    assert_eq!(prims[0].rect, bounds);
}

#[test]
fn tiled_image_is_cut_into_tiles() {
    let key = ImageKey(1, 2);
    let bounds = rect(0, 0, 18000, 18000);
    let mut cache = ResourceCache::new();
    cache.add_image_template(key, ImageDescriptor { width: 300, height: 300, is_opaque: true }, Some(256));
    let scene = scene_with(
        vec![push(plain(), root_bounds(), root_layer()), image_item(key, bounds), pop()],
        None,
    );
    let frame = created(&scene, &cache, false);
    let prims = primitives(&frame);
    let rects: Vec<LayerRect> = prims.iter().map(|p| p.rect).collect();
    assert_eq!(
        rects,
        vec![
            rect(0, 0, 15360, 15360),
            rect(15360, 0, 2640, 15360),
            rect(0, 15360, 15360, 2640),
            rect(15360, 15360, 2640, 2640),
        ]
    );
    assert_eq!(
        prims[3].kind,
        PrimitiveKind::Image {
            stretch_size: LayerSize::new(2640, 2640),
            tile_spacing: LayerSize::zero(),
            image_key: key,
            image_rendering: ImageRendering::Pixelated,
            tile_offset: Some(TileOffset { x: 1, y: 1 }),
        }
    );
}

#[test]
fn tiled_image_within_the_tile_limit_is_one_primitive() {
    let key = ImageKey(1, 3);
    let bounds = rect(0, 0, 6000, 6000);
    let mut cache = ResourceCache::new();
    cache.add_image_template(key, ImageDescriptor { width: 100, height: 100, is_opaque: true }, Some(256));
    let scene = scene_with(
        vec![push(plain(), root_bounds(), root_layer()), image_item(key, bounds), pop()],
        None,
    );
    let frame = created(&scene, &cache, false);
    assert_eq!(
        primitives(&frame),
        vec![Primitive {
            scroll_layer_id: root_layer(),
            rect: bounds,
            clip: ClipRegion::simple(&bounds),
            kind: PrimitiveKind::Image {
                stretch_size: bounds.size,
                tile_spacing: LayerSize::zero(),
                image_key: key,
                image_rendering: ImageRendering::Pixelated,
                tile_offset: None,
            },
        }]
    );
}

#[test]
fn image_as_large_as_a_tile_is_drawn_direct() {
    let key = ImageKey(1, 4);
    let bounds = rect(0, 0, 6000, 6000);
    let mut cache = ResourceCache::new();
    cache.add_image_template(key, ImageDescriptor { width: 256, height: 256, is_opaque: true }, Some(256));
    let scene = scene_with(
        vec![push(plain(), root_bounds(), root_layer()), image_item(key, bounds), pop()],
        None,
    );
    let frame = created(&scene, &cache, false);
    let prims = primitives(&frame);
    assert_eq!(prims.len(), 1);
    assert_eq!(prims[0].rect, bounds);
    assert_eq!(
        prims[0].kind,
        PrimitiveKind::Image {
            stretch_size: bounds.size,
            tile_spacing: LayerSize::zero(),
            image_key: key,
            image_rendering: ImageRendering::Pixelated,
            tile_offset: None,
        }
    );
}

#[test]
fn image_larger_than_a_tile_on_one_axis_is_cut_up() {
    let key = ImageKey(1, 5);
    let bounds = rect(0, 0, 300, 100);
    let mut cache = ResourceCache::new();
    cache.add_image_template(key, ImageDescriptor { width: 300, height: 100, is_opaque: true }, Some(256));
    let scene = scene_with(
        vec![push(plain(), root_bounds(), root_layer()), image_item(key, bounds), pop()],
        None,
    );
    let frame = created(&scene, &cache, false);
    let prims = primitives(&frame);
    let rects: Vec<LayerRect> = prims.iter().map(|p| p.rect).collect();
    assert_eq!(rects, vec![rect(0, 0, 256, 100), rect(256, 0, 44, 100)]);
    assert_eq!(
        prims[1].kind,
        PrimitiveKind::Image {
            stretch_size: LayerSize::new(44, 100),
            tile_spacing: LayerSize::zero(),
            image_key: key,
            image_rendering: ImageRendering::Pixelated,
            tile_offset: Some(TileOffset { x: 1, y: 0 }),
        }
    );
}

#[test]
fn small_tiled_image_without_pixels_or_box_is_still_one_primitive() {
    let empty = ImageKey(1, 6);
    let small = ImageKey(1, 7);
    let mut cache = ResourceCache::new();
    cache.add_image_template(empty, ImageDescriptor { width: 0, height: 0, is_opaque: true }, Some(256));
    cache.add_image_template(small, ImageDescriptor { width: 10, height: 10, is_opaque: true }, Some(256));
    let mut spaced = image_item(small, rect(5, 5, 0, 40));
    if let SpecificDisplayItem::Image(ref mut info) = spaced.item {
        info.tile_spacing = LayerSize::new(3, 4);
    }
    let scene = scene_with(
        vec![
            push(plain(), root_bounds(), root_layer()),
            image_item(empty, rect(0, 0, 60, 60)),
            spaced,
            pop(),
        ],
        None,
    );
    let frame = created(&scene, &cache, false);
    let prims = primitives(&frame);
    assert_eq!(prims.len(), 2);
    assert_eq!(prims[0].rect, rect(0, 0, 60, 60));
    assert_eq!(prims[1].rect, rect(5, 5, 0, 40));
    assert_eq!(
        prims[1].kind,
        PrimitiveKind::Image {
            stretch_size: LayerSize::new(0, 40),
            tile_spacing: LayerSize::new(3, 4),
            image_key: small,
            image_rendering: ImageRendering::Pixelated,
            tile_offset: None,
        }
    );
}

fn scene_with_child(child_list: Option<Vec<DisplayItem>>) -> Scene {
    let mut scene = scene_with(
        vec![
            push(plain(), rect(1, 2, 6000, 18000), root_layer()),
            item(
                SpecificDisplayItem::Iframe(IframeDisplayItem { pipeline_id: CHILD }),
                rect(10, 20, 1000, 500),
                root_layer(),
            ),
            webgl(rect(0, 0, 1, 1), root_layer()),
            pop(),
        ],
        None,
    );
    if let Some(list) = child_list {
        scene.set_display_list(CHILD, Epoch(9), list, Some(WHITE), LayerSize::new(1, 1), AuxiliaryLists::new());
    }
    scene
}

#[test]
fn iframe_brings_in_its_pipeline() {
    let child_bounds = rect(7, 8, 900, 2000);
    let child_layer = ScrollLayerId::root_scroll_layer(CHILD);
    let scene = scene_with_child(Some(vec![
        push(plain(), child_bounds, child_layer),
        webgl(rect(0, 0, 2, 2), child_layer),
        pop(),
    ]));
    let frame = created(&scene, &ResourceCache::new(), false);
    let child_frame = ScrollLayerId::ReferenceFrame(2, CHILD);
    assert_eq!(frame.pipeline_epoch_map.len(), 2);
    assert_eq!(frame.pipeline_epoch_map.get(&CHILD.key()), Some(&Epoch(9)));
    assert_eq!(frame.clip_scroll_tree.nodes.len(), 4);
    assert_eq!(
        frame.clip_scroll_tree.nodes[2],
        ClipScrollNode {
            id: child_frame,
            parent: Some(root_layer()),
            pipeline_id: CHILD,
            local_viewport_rect: rect(0, 0, 1000, 500),
            kind: NodeKind::ReferenceFrame(ReferenceFrameTransform {
                offset: LayerPoint::new(1, 2),
                origin: LayerPoint::new(10, 20),
                transform: ResolvedTransform::Identity,
                perspective: ResolvedTransform::Identity,
            }),
            scroll_offset: LayerPoint::zero(),
        }
    );
    assert_eq!(
        frame.clip_scroll_tree.nodes[3],
        ClipScrollNode {
            id: child_layer,
            parent: Some(child_frame),
            pipeline_id: CHILD,
            local_viewport_rect: rect(0, 0, 1000, 500),
            kind: NodeKind::Clip {
                content_size: LayerSize::new(900, 2000),
                clip: ClipRegion::simple(&child_bounds),
            },
            scroll_offset: LayerPoint::zero(),
        }
    );
    let cmds = commands(&frame);
    assert_eq!(cmds.len(), 7);
    assert_eq!(cmds[0], opened(LayerPoint::new(1, 2), ROOT, true));
    assert_eq!(cmds[1], opened(LayerPoint::new(7, 8), CHILD, true));
    assert_eq!(cmds[2], solid(child_layer, child_bounds, ClipRegion::simple(&child_bounds), WHITE));
    assert_eq!(cmds[4], Command::PopStackingContext);
    assert_eq!(primitives(&frame)[2].scroll_layer_id, root_layer());
    let builder = frame.frame_builder.as_ref().unwrap();
    assert_eq!(builder.reference_frame_stack, vec![ScrollLayerId::ReferenceFrame(0, ROOT)]);
}

#[test]
fn iframe_of_an_unknown_pipeline_is_left_out() {
    let scene = scene_with_child(None);
    let frame = created(&scene, &ResourceCache::new(), false);
    assert_eq!(frame.clip_scroll_tree.nodes.len(), 2);
    assert_eq!(frame.pipeline_epoch_map.len(), 1);
    assert_eq!(commands(&frame).len(), 3);
}

#[test]
fn iframe_whose_list_does_not_start_with_a_stacking_context_is_left_out() {
    let scene = scene_with_child(Some(vec![webgl(rect(0, 0, 2, 2), root_layer()), pop()]));
    let frame = created(&scene, &ResourceCache::new(), false);
    assert_eq!(frame.clip_scroll_tree.nodes.len(), 2);
    assert_eq!(frame.pipeline_epoch_map.len(), 1);
    assert_eq!(commands(&frame).len(), 3);
}

#[test]
fn pipeline_that_shows_itself_is_cut_off() {
    let scene = scene_with(
        vec![
            push(plain(), root_bounds(), root_layer()),
            item(
                SpecificDisplayItem::Iframe(IframeDisplayItem { pipeline_id: ROOT }),
                rect(0, 0, 100, 100),
                root_layer(),
            ),
            webgl(rect(0, 0, 1, 1), root_layer()),
            pop(),
        ],
        None,
    );
    let frame = created(&scene, &ResourceCache::new(), false);
    // The root, and the root once more inside itself.
    assert_eq!(primitives(&frame).len(), 2);
    assert_eq!(commands(&frame).len(), 6);
    assert_eq!(frame.clip_scroll_tree.nodes.len(), 4);
}

#[test]
fn scroll_offsets_survive_a_rebuild() {
    let scene = scene_with(
        vec![push(plain(), root_bounds(), root_layer()), webgl(rect(0, 0, 1, 1), root_layer()), pop()],
        None,
    );
    let cache = ResourceCache::new();
    let mut frame = created(&scene, &cache, false);
    assert!(frame.scroll_nodes(LayerPoint::new(0, 3000), root_layer()));
    assert!(!frame.scroll_nodes(LayerPoint::new(0, 3000), root_layer()));
    assert_eq!(
        frame.get_scroll_node_state(),
        vec![ScrollLayerState { id: root_layer(), scroll_offset: LayerPoint::new(0, -3000) }]
    );
    frame.create(&scene, &cache, window(), inner(), 60);
    assert_eq!(frame.id, FrameId(2));
    assert_eq!(frame.clip_scroll_tree.nodes.len(), 2);
    assert_eq!(frame.clip_scroll_tree.nodes[1].scroll_offset, LayerPoint::new(0, -3000));
    assert_eq!(frame.clip_scroll_tree.nodes[0].scroll_offset, LayerPoint::zero());
}

#[test]
fn scroll_is_limited_to_the_content() {
    let scene = scene_with(
        vec![push(plain(), root_bounds(), root_layer()), webgl(rect(0, 0, 1, 1), root_layer()), pop()],
        None,
    );
    let mut frame = created(&scene, &ResourceCache::new(), false);
    assert!(frame.scroll_nodes(LayerPoint::new(500, 1_000_000), root_layer()));
    assert_eq!(frame.clip_scroll_tree.nodes[1].scroll_offset, LayerPoint::new(0, -12000));
    assert!(frame.scroll_nodes(LayerPoint::new(0, -5), root_layer()));
    assert_eq!(frame.clip_scroll_tree.nodes[1].scroll_offset, LayerPoint::new(0, 0));
}

#[test]
fn reference_frames_do_not_scroll() {
    let scene = scene_with(
        vec![push(plain(), root_bounds(), root_layer()), webgl(rect(0, 0, 1, 1), root_layer()), pop()],
        None,
    );
    let mut frame = created(&scene, &ResourceCache::new(), false);
    assert!(!frame.scroll_nodes(LayerPoint::new(0, 10), ScrollLayerId::ReferenceFrame(0, ROOT)));
    assert!(frame.clip_scroll_tree.pending_scroll_offsets.is_empty());
    assert_eq!(frame.clip_scroll_tree.nodes, root_nodes());
}

#[test]
fn scroll_request_for_a_missing_node_waits_for_the_next_frame() {
    let scene = scene_with(
        vec![push(plain(), root_bounds(), root_layer()), webgl(rect(0, 0, 1, 1), root_layer()), pop()],
        None,
    );
    let cache = ResourceCache::new();
    let mut frame = Frame::new(config(false));
    assert!(!frame.scroll_nodes(LayerPoint::new(0, 600), root_layer()));
    assert_eq!(
        frame.clip_scroll_tree.pending_scroll_offsets,
        vec![ScrollLayerState { id: root_layer(), scroll_offset: LayerPoint::new(0, 600) }]
    );
    frame.create(&scene, &cache, window(), inner(), 60);
    assert_eq!(frame.clip_scroll_tree.nodes[1].scroll_offset, LayerPoint::new(0, -600));
    assert!(frame.clip_scroll_tree.pending_scroll_offsets.is_empty());
}

#[test]
fn discarded_pipeline_loses_its_scroll_offsets() {
    let scene = scene_with(
        vec![push(plain(), root_bounds(), root_layer()), webgl(rect(0, 0, 1, 1), root_layer()), pop()],
        None,
    );
    let cache = ResourceCache::new();
    let mut frame = created(&scene, &cache, false);
    assert!(frame.scroll_nodes(LayerPoint::new(0, 3000), root_layer()));
    frame.discard_frame_state_for_pipeline(ROOT);
    assert_eq!(frame.clip_scroll_tree.pipelines_to_discard, vec![ROOT]);
    frame.create(&scene, &cache, window(), inner(), 60);
    assert_eq!(frame.clip_scroll_tree.nodes[1].scroll_offset, LayerPoint::zero());
    assert!(frame.clip_scroll_tree.pipelines_to_discard.is_empty());
}

#[test]
fn build_before_create_has_no_frame() {
    let mut frame = Frame::new(config(false));
    let mut cache = ResourceCache::new();
    let built = frame.build(&mut cache, 60, LayerPoint::zero(), Vec::new());
    assert!(built.frame.is_none());
    assert!(built.pipeline_epoch_map.is_empty());
    assert!(built.layers_bouncing_back.is_empty());
    assert_eq!(cache.expired_up_to, Some(FrameId(0)));
}

#[test]
fn build_hands_out_the_flattened_frame() {
    let box_rect = rect(0, 0, 60, 60);
    let scene = scene_with(
        vec![push(plain(), root_bounds(), root_layer()), rectangle(box_rect, RED, root_layer()), pop()],
        Some(WHITE),
    );
    let mut cache = ResourceCache::new();
    let mut frame = created(&scene, &cache, false);
    let bouncing = vec![root_layer(), ScrollLayerId::Clip(4, CHILD)];
    let built = frame.build(&mut cache, 120, LayerPoint::new(5, 6), bouncing.clone());
    assert_eq!(built.layers_bouncing_back, bouncing);
    assert_eq!(cache.expired_up_to, Some(FrameId(1)));
    assert_eq!(frame.clip_scroll_tree.pan, LayerPoint::new(5, 6));
    assert_eq!(built.pipeline_epoch_map.get(&ROOT.key()), Some(&Epoch(3)));
    let out = built.frame.expect("no frame");
    assert_eq!(out.frame_id, FrameId(1));
    assert_eq!(out.window_size, window());
    assert_eq!(out.background_color, Some(WHITE));
    assert_eq!(out.device_pixel_ratio, 120);
    assert_eq!(out.commands, commands(&frame));
    assert_eq!(out.commands.len(), 4);
    assert!(out.filter_ops.is_empty());
    let again = frame.build(&mut cache, 120, LayerPoint::zero(), Vec::new());
    assert_eq!(again.frame.expect("no frame").commands.len(), 4);
}

#[test]
fn try_create_refuses_a_scene_that_cannot_be_flattened() {
    let mut scene = scene_with(
        vec![push(plain(), root_bounds(), root_layer()), webgl(rect(0, 0, 1, 1), root_layer()), pop()],
        None,
    );
    let cache = ResourceCache::new();
    let mut frame = Frame::new(config(false));
    assert!(frame.can_create(&scene, &cache, window()));
    assert!(frame.try_create(&scene, &cache, window(), inner(), 60));
    assert_eq!(frame.id, FrameId(1));
    assert_eq!(commands(&frame).len(), 3);
    // A stacking context that is visited names a filter that the payload
    // does not hold.
    let filtered = StackingContext { filters: ItemRange::new(0, 1), ..plain() };
    scene.display_lists.insert(
        ROOT.key(),
        vec![
            push(plain(), root_bounds(), root_layer()),
            push(filtered, root_bounds(), root_layer()),
            webgl(rect(0, 0, 1, 1), root_layer()),
            pop(),
            pop(),
        ],
    );
    assert!(!frame.can_create(&scene, &cache, window()));
    assert!(!frame.try_create(&scene, &cache, window(), inner(), 60));
    assert_eq!(frame.id, FrameId(1));
    assert_eq!(commands(&frame).len(), 3);
    // The payload of the root is missing altogether.
    scene.pipeline_auxiliary_lists.remove(&ROOT.key());
    scene.display_lists.insert(
        ROOT.key(),
        vec![push(plain(), root_bounds(), root_layer()), webgl(rect(0, 0, 1, 1), root_layer()), pop()],
    );
    assert!(!frame.can_create(&scene, &cache, window()));
    // Without a window there is nothing to flatten, so nothing to refuse.
    assert!(frame.can_create(&scene, &cache, DeviceUintSize { width: 0, height: 1 }));
}

#[test]
fn try_create_refuses_an_image_with_tiles_without_size() {
    let key = ImageKey(1, 1);
    let scene = scene_with(
        vec![push(plain(), root_bounds(), root_layer()), image_item(key, rect(0, 0, 5, 5)), pop()],
        None,
    );
    let mut cache = ResourceCache::new();
    cache.image_templates.insert(
        key.key(),
        frame_flatten::resource_cache::ImageProperties {
            descriptor: ImageDescriptor { width: 1, height: 1, is_opaque: true },
            tiling: Some(0),
        },
    );
    let mut frame = Frame::new(config(false));
    assert!(!frame.can_create(&scene, &cache, window()));
    assert!(!frame.try_create(&scene, &cache, window(), inner(), 60));
    assert_eq!(frame.id, FrameId(0));
    assert!(frame.frame_builder.is_none());
    // Tiles without size do not matter for an image without pixels: it is
    // not cut up.
    let mut blank = ResourceCache::new();
    blank.image_templates.insert(
        key.key(),
        frame_flatten::resource_cache::ImageProperties {
            descriptor: ImageDescriptor { width: 0, height: 0, is_opaque: true },
            tiling: Some(0),
        },
    );
    assert!(frame.can_create(&scene, &blank, window()));
    // An image that no item shows does not matter.
    let other = scene_with(
        vec![push(plain(), root_bounds(), root_layer()), webgl(rect(0, 0, 1, 1), root_layer()), pop()],
        None,
    );
    assert!(frame.can_create(&other, &cache, window()));
}

#[test]
fn try_create_refuses_when_frames_cannot_be_counted() {
    let scene = scene_with(vec![push(plain(), root_bounds(), root_layer()), pop()], None);
    let mut frame = Frame::new(config(false));
    frame.id = FrameId(u32::MAX);
    assert!(!frame.try_create(&scene, &ResourceCache::new(), window(), inner(), 60));
    assert_eq!(frame.id, FrameId(u32::MAX));
    // Without a root nothing is counted: the call does nothing, and says
    // that it did it.
    assert!(frame.try_create(&Scene::new(), &ResourceCache::new(), window(), inner(), 60));
    assert!(frame.try_create(
        &scene,
        &ResourceCache::new(),
        DeviceUintSize { width: 0, height: 5 },
        inner(),
        60
    ));
    assert_eq!(frame.id, FrameId(u32::MAX));
    assert!(frame.frame_builder.is_none());
}

#[test]
fn create_needs_only_what_it_visits_to_be_well_formed() {
    // The child pipeline names filters that its payload does not hold, but
    // nothing shows the child.
    let mut scene = scene_with(
        vec![push(plain(), root_bounds(), root_layer()), webgl(rect(0, 0, 1, 1), root_layer()), pop()],
        None,
    );
    let filtered = StackingContext { filters: ItemRange::new(0, 1), ..plain() };
    scene.display_lists.insert(
        CHILD.key(),
        vec![push(filtered, root_bounds(), root_layer()), webgl(rect(0, 0, 1, 1), root_layer()), pop()],
    );
    assert!(!scene.is_well_formed());
    let cache = ResourceCache::new();
    let mut frame = Frame::new(config(false));
    assert!(frame.can_create(&scene, &cache, window()));
    assert!(frame.try_create(&scene, &cache, window(), inner(), 60));
    assert_eq!(frame.id, FrameId(1));
    assert_eq!(commands(&frame).len(), 3);
}

#[test]
fn can_create_follows_iframes_and_passes_over_what_is_invisible() {
    let mut lists = AuxiliaryLists::new();
    lists.filters.push(FilterOp::Opacity(AmountBinding::Value(0)));
    let hidden = StackingContext { filters: ItemRange::new(0, 1), ..plain() };
    let broken = StackingContext { filters: ItemRange::new(5, 1), ..plain() };
    let mut scene = Scene::new();
    scene.set_root_pipeline_id(ROOT);
    scene.set_display_list(
        ROOT,
        Epoch(1),
        vec![
            push(plain(), root_bounds(), root_layer()),
            push(hidden, root_bounds(), root_layer()),
            webgl(rect(0, 0, 1, 1), root_layer()),
            pop(),
            item(
                SpecificDisplayItem::Iframe(IframeDisplayItem { pipeline_id: CHILD }),
                rect(0, 0, 1, 1),
                root_layer(),
            ),
            pop(),
        ],
        None,
        LayerSize::new(6000, 6000),
        lists,
    );
    let frame = Frame::new(config(false));
    let cache = ResourceCache::new();
    assert!(frame.can_create(&scene, &cache, window()));
    // What lies inside the invisible stacking context is not visited.
    scene.display_lists.get_mut(&ROOT.key()).unwrap()[2] = push(broken, root_bounds(), root_layer());
    scene.display_lists.get_mut(&ROOT.key()).unwrap().insert(3, pop());
    assert!(frame.can_create(&scene, &cache, window()));
    // What the iframe shows is.
    scene.display_lists.insert(
        CHILD.key(),
        vec![push(broken, root_bounds(), root_layer()), webgl(rect(0, 0, 1, 1), root_layer()), pop()],
    );
    scene.pipeline_auxiliary_lists.insert(CHILD.key(), AuxiliaryLists::new());
    assert!(frame.can_create(&scene, &cache, window()));
    scene.pipeline_map.insert(
        CHILD.key(),
        frame_flatten::scene::ScenePipeline {
            pipeline_id: CHILD,
            epoch: Epoch(2),
            viewport_size: LayerSize::new(1, 1),
            background_color: None,
        },
    );
    assert!(!frame.can_create(&scene, &cache, window()));
}

fn ready_frame() -> Frame {
    let mut frame = Frame::new(config(false));
    frame.pipeline_auxiliary_lists.insert(ROOT.key(), AuxiliaryLists::new());
    frame
}

fn ready_context<'a>(frame: &mut Frame, scene: &'a Scene, cache: &'a ResourceCache) -> FlattenContext<'a> {
    let mut context = FlattenContext::new(scene, FrameBuilder::new(window(), None, config(false)), cache);
    context.builder.push_root(
        ROOT,
        &LayerSize::new(6000, 6000),
        &root_bounds().size,
        &mut frame.clip_scroll_tree,
    );
    context
}

#[test]
fn flattening_an_empty_stacking_context_changes_nothing_but_the_cursor() {
    let moved = StackingContext { transform: Some(TransformBinding::Value(TransformId(1))), ..fixed() };
    let list = vec![
        push(plain(), root_bounds(), root_layer()),
        push(moved, rect(5, 5, 50, 50), root_layer()),
        pop(),
        webgl(rect(0, 0, 1, 1), root_layer()),
        pop(),
    ];
    let scene = Scene::new();
    let cache = ResourceCache::new();
    let mut frame = ready_frame();
    let mut context = ready_context(&mut frame, &scene, &cache);
    context.replacements.push((root_layer(), ScrollLayerId::Clip(8, ROOT)));
    let mut traversal = frame_flatten::traversal::DisplayListTraversal { display_list: &list, next_item_index: 2 };
    for level in [0, 3] {
        traversal.next_item_index = 2;
        frame.flatten_stacking_context(
            &mut traversal,
            ROOT,
            &mut context,
            root_layer(),
            LayerPoint::new(7, 7),
            level,
            &rect(5, 5, 50, 50),
            &moved,
            4,
        );
        assert_eq!(traversal.next_item_index, 3);
        assert!(context.builder.commands.is_empty());
        assert!(context.builder.filter_ops.is_empty());
        assert_eq!(frame.clip_scroll_tree.nodes.len(), 2);
        assert!(frame.pipeline_epoch_map.is_empty());
        assert_eq!(context.replacements, vec![(root_layer(), ScrollLayerId::Clip(8, ROOT))]);
        assert_eq!(context.builder.reference_frame_stack, vec![ScrollLayerId::ReferenceFrame(0, ROOT)]);
    }
}

#[test]
fn flattening_a_fixed_stacking_context_redirects_its_own_node_only() {
    let a = ScrollLayerId::Clip(1, ROOT);
    let b = ScrollLayerId::Clip(2, ROOT);
    let list = vec![
        push(fixed(), rect(0, 0, 10, 10), a),
        webgl(rect(0, 0, 1, 1), a),
        push(plain(), rect(0, 0, 10, 10), b),
        webgl(rect(0, 0, 2, 2), a),
        pop(),
        webgl(rect(0, 0, 3, 3), b),
        webgl(rect(0, 0, 4, 4), a),
        pop(),
        webgl(rect(0, 0, 5, 5), a),
    ];
    let scene = Scene::new();
    let cache = ResourceCache::new();
    let mut frame = ready_frame();
    let mut context = ready_context(&mut frame, &scene, &cache);
    let mut traversal = frame_flatten::traversal::DisplayListTraversal::new_skipping_first(&list);
    frame.flatten_stacking_context(
        &mut traversal,
        ROOT,
        &mut context,
        a,
        LayerPoint::zero(),
        1,
        &rect(0, 0, 10, 10),
        &fixed(),
        4,
    );
    assert_eq!(traversal.next_item_index, 8);
    let layers: Vec<ScrollLayerId> = context
        .builder
        .commands
        .iter()
        .filter_map(|c| match c {
            Command::Primitive(p) => Some(p.scroll_layer_id),
            _ => None,
        })
        .collect();
    let root_frame = ScrollLayerId::ReferenceFrame(0, ROOT);
    assert_eq!(layers, vec![root_frame, root_frame, b, root_frame]);
    assert!(context.replacements.is_empty());
    assert_eq!(context.builder.commands.len(), 8);
}

#[test]
fn flattening_items_stops_behind_the_closing_pop() {
    let list = vec![
        push(plain(), root_bounds(), root_layer()),
        webgl(rect(0, 0, 1, 1), root_layer()),
        pop(),
        webgl(rect(0, 0, 2, 2), root_layer()),
    ];
    let scene = Scene::new();
    let cache = ResourceCache::new();
    let mut frame = ready_frame();
    let mut context = ready_context(&mut frame, &scene, &cache);
    let mut traversal = frame_flatten::traversal::DisplayListTraversal::new_skipping_first(&list);
    frame.flatten_items(&mut traversal, ROOT, &mut context, LayerPoint::zero(), 0, 4);
    assert_eq!(traversal.next_item_index, 3);
    assert_eq!(context.builder.commands.len(), 1);
    frame.flatten_drawing_item(&mut context, ROOT, &list[3], ScrollLayerId::Clip(9, ROOT));
    assert_eq!(
        context.builder.commands[1],
        Command::Primitive(Primitive {
            scroll_layer_id: ScrollLayerId::Clip(9, ROOT),
            rect: rect(0, 0, 2, 2),
            clip: ClipRegion::simple(&rect(0, 0, 2, 2)),
            kind: PrimitiveKind::WebGL { context_id: WebGLContextId(5) },
        })
    );
    frame.flatten_clip(
        &mut context,
        ROOT,
        root_layer(),
        &ClipDisplayItem { id: ScrollLayerId::Clip(3, ROOT), content_size: LayerSize::new(1, 2) },
        LayerPoint::new(10, 10),
        &ClipRegion::simple(&rect(1, 1, 5, 5)),
    );
    assert_eq!(frame.clip_scroll_tree.nodes.len(), 3);
    assert_eq!(frame.clip_scroll_tree.nodes[2].local_viewport_rect, rect(11, 11, 5, 5));
    frame.flatten_iframe(CHILD, root_layer(), &rect(0, 0, 5, 5), &mut context, LayerPoint::zero(), 4);
    assert_eq!(frame.clip_scroll_tree.nodes.len(), 3);
    let built = frame.build_frame(60, vec![root_layer()]);
    assert!(built.frame.is_none());
    assert_eq!(built.layers_bouncing_back, vec![root_layer()]);
}
