use frame_flatten::clip::clip_intersection;
use frame_flatten::display_list::{
    display_list_fits, starting_stacking_context, AmountBinding, AuxiliaryLists, BorderRadius,
    ClipDisplayItem, ClipRegion, Color, ComplexClipRegion, DisplayItem, FilterOp, ImageKey,
    ImageMask, ItemRange, MixBlendMode, PipelineId, PropertyBindingKey,
    PushStackingContextDisplayItem, RectangleDisplayItem, ScrollLayerId, ScrollPolicy,
    SpecificDisplayItem, StackingContext, TransformBinding, TransformId,
};
use frame_flatten::clip_scroll_tree::ResolvedTransform;
use frame_flatten::frame_builder::{AxisDirection, CompositeOps, LowLevelFilterOp};
use frame_flatten::geometry::{LayerBox, LayerPoint, LayerRect, LayerSize};
use frame_flatten::scene::SceneProperties;
use frame_flatten::traversal::DisplayListTraversal;

fn rect(x: i32, y: i32, w: i32, h: i32) -> LayerRect {
    LayerRect::new(LayerPoint::new(x, y), LayerSize::new(w, h))
}

fn layer() -> ScrollLayerId {
    ScrollLayerId::Clip(0, PipelineId(0, 1))
}

fn stacking_context() -> StackingContext {
    StackingContext {
        scroll_policy: ScrollPolicy::Scrollable,
        transform: None,
        perspective: None,
        mix_blend_mode: MixBlendMode::Normal,
        filters: ItemRange::empty(),
    }
}

fn item(specific: SpecificDisplayItem) -> DisplayItem {
    DisplayItem {
        item: specific,
        rect: rect(0, 0, 100, 100),
        clip: ClipRegion::simple(&rect(0, 0, 100, 100)),
        scroll_layer_id: layer(),
    }
}

fn push() -> DisplayItem {
    item(SpecificDisplayItem::PushStackingContext(PushStackingContextDisplayItem {
        stacking_context: stacking_context(),
    }))
}

fn pop() -> DisplayItem {
    item(SpecificDisplayItem::PopStackingContext)
}

fn rectangle() -> DisplayItem {
    item(SpecificDisplayItem::Rectangle(RectangleDisplayItem {
        color: Color { r: 1, g: 2, b: 3, a: 255 },
    }))
}

fn uniform(radius: i32) -> BorderRadius {
    let r = LayerSize::new(radius, radius);
    BorderRadius { top_left: r, top_right: r, bottom_left: r, bottom_right: r }
}

#[test]
fn new_skipping_first_stands_behind_the_first_item() {
    let list = vec![push(), rectangle(), pop()];
    let traversal = DisplayListTraversal::new_skipping_first(&list);
    assert_eq!(traversal.next_item_index, 1);
    assert_eq!(traversal.peek(), Some(&list[1]));
}

#[test]
fn next_walks_to_the_end_and_stays_there() {
    let list = vec![push(), rectangle(), pop()];
    let mut traversal = DisplayListTraversal::new_skipping_first(&list);
    assert_eq!(traversal.next(), Some(&list[1]));
    assert_eq!(traversal.next(), Some(&list[2]));
    assert_eq!(traversal.next(), None);
    assert_eq!(traversal.next_item_index, 3);
    assert_eq!(traversal.peek(), None);
}

#[test]
fn traversal_of_an_empty_list_is_at_its_end() {
    let list: Vec<DisplayItem> = Vec::new();
    let mut traversal = DisplayListTraversal::new_skipping_first(&list);
    assert!(traversal.current_stacking_context_empty());
    traversal.skip_current_stacking_context();
    assert_eq!(traversal.next_item_index, 1);
    assert_eq!(traversal.next(), None);
}

#[test]
fn stacking_context_is_empty_before_its_own_pop() {
    let list = vec![push(), pop()];
    let traversal = DisplayListTraversal::new_skipping_first(&list);
    assert!(traversal.current_stacking_context_empty());
    let full = vec![push(), rectangle(), pop()];
    assert!(!DisplayListTraversal::new_skipping_first(&full).current_stacking_context_empty());
}

#[test]
fn skip_passes_over_nested_stacking_contexts() {
    // index:      0       1            2       3            4      5      6
    let list = vec![push(), rectangle(), push(), rectangle(), pop(), pop(), rectangle()];
    let mut traversal = DisplayListTraversal::new_skipping_first(&list);
    traversal.skip_current_stacking_context();
    assert_eq!(traversal.next_item_index, 6);
    let mut inner = DisplayListTraversal { display_list: &list, next_item_index: 3 };
    inner.skip_current_stacking_context();
    assert_eq!(inner.next_item_index, 5);
}

#[test]
fn skip_of_an_unclosed_stacking_context_runs_to_the_end() {
    let list = vec![push(), push(), rectangle(), pop()];
    let mut traversal = DisplayListTraversal::new_skipping_first(&list);
    traversal.skip_current_stacking_context();
    assert_eq!(traversal.next_item_index, 4);
}

#[test]
fn starting_stacking_context_needs_a_leading_push() {
    let mut first = push();
    first.rect = rect(5, 6, 7, 8);
    let list = vec![first, pop()];
    assert_eq!(starting_stacking_context(&list), Some((stacking_context(), rect(5, 6, 7, 8))));
    assert_eq!(starting_stacking_context(&vec![rectangle(), pop()]), None);
    assert_eq!(starting_stacking_context(&Vec::new()), None);
}

#[test]
fn display_list_fits_checks_the_ranges_that_are_read() {
    let mut lists = AuxiliaryLists::new();
    lists.filters.push(FilterOp::Blur(3));
    lists.complex_clip_regions.push(ComplexClipRegion { rect: rect(0, 0, 10, 10), radii: uniform(1) });
    let mut sc = stacking_context();
    sc.filters = ItemRange::new(0, 1);
    let mut clipped = rectangle();
    clipped.clip.complex = ItemRange::new(0, 1);
    let good = vec![
        item(SpecificDisplayItem::PushStackingContext(PushStackingContextDisplayItem {
            stacking_context: sc,
        })),
        clipped,
        pop(),
    ];
    assert!(display_list_fits(&good, &lists));
    sc.filters = ItemRange::new(1, 1);
    let bad_filters = vec![item(SpecificDisplayItem::PushStackingContext(
        PushStackingContextDisplayItem { stacking_context: sc },
    ))];
    assert!(!display_list_fits(&bad_filters, &lists));
    clipped.clip.complex = ItemRange::new(usize::MAX, 2);
    assert!(!display_list_fits(&vec![clipped], &lists));
}

#[test]
fn pipeline_key_packs_both_numbers() {
    assert_eq!(PipelineId(0, 0).key(), 0);
    assert_eq!(PipelineId(0, 7).key(), 7);
    assert_eq!(PipelineId(1, 0).key(), 1 << 32);
    assert_eq!(PipelineId(u32::MAX, u32::MAX).key(), u64::MAX);
    assert_ne!(PipelineId(1, 2).key(), PipelineId(2, 1).key());
    assert_eq!(ImageKey(2, 5).key(), (2 << 32) + 5);
}

#[test]
fn scroll_layer_id_roots() {
    let p = PipelineId(4, 2);
    assert_eq!(ScrollLayerId::root_scroll_layer(p), ScrollLayerId::Clip(0, p));
    assert_eq!(ScrollLayerId::root_reference_frame(p), ScrollLayerId::ReferenceFrame(0, p));
    assert!(ScrollLayerId::ReferenceFrame(3, p).is_reference_frame());
    assert!(!ScrollLayerId::ClipExternalId(3, p).is_reference_frame());
    assert_eq!(ScrollLayerId::ClipExternalId(3, p).pipeline_id(), p);
}

#[test]
fn inner_rect_is_drawn_in_by_the_longer_radius() {
    let clip = ComplexClipRegion {
        rect: rect(10, 20, 100, 80),
        radii: BorderRadius {
            top_left: LayerSize::new(5, 6),
            top_right: LayerSize::new(7, 8),
            bottom_left: LayerSize::new(9, 10),
            bottom_right: LayerSize::new(11, 12),
        },
    };
    assert_eq!(
        clip.get_inner_rect(),
        Some(LayerBox { min_x: 19, min_y: 28, max_x: 99, max_y: 88 })
    );
    let round = ComplexClipRegion { rect: rect(0, 0, 10, 10), radii: uniform(6) };
    assert_eq!(round.get_inner_rect(), None);
    let pill = ComplexClipRegion { rect: rect(0, 0, 10, 10), radii: uniform(5) };
    assert_eq!(pill.get_inner_rect(), Some(LayerBox { min_x: 5, min_y: 5, max_x: 5, max_y: 5 }));
}

#[test]
fn clip_intersection_of_a_simple_clip_is_the_overlap() {
    let lists = AuxiliaryLists::new();
    let region = ClipRegion::simple(&rect(10, 10, 50, 50));
    assert_eq!(
        clip_intersection(&rect(0, 0, 30, 100), &region, &lists),
        Some(rect(10, 10, 20, 50))
    );
    assert_eq!(clip_intersection(&rect(100, 100, 5, 5), &region, &lists), None);
}

#[test]
fn clip_intersection_narrows_by_every_rounded_clip() {
    let mut lists = AuxiliaryLists::new();
    lists.complex_clip_regions.push(ComplexClipRegion { rect: rect(90, 90, 1, 1), radii: uniform(0) });
    lists.complex_clip_regions.push(ComplexClipRegion { rect: rect(0, 0, 100, 100), radii: uniform(10) });
    lists.complex_clip_regions.push(ComplexClipRegion { rect: rect(20, 0, 40, 100), radii: uniform(0) });
    let mut region = ClipRegion::simple(&rect(0, 0, 100, 100));
    region.complex = ItemRange::new(1, 2);
    assert_eq!(
        clip_intersection(&rect(0, 0, 100, 50), &region, &lists),
        Some(rect(20, 10, 40, 40))
    );
    region.complex = ItemRange::new(0, 3);
    assert_eq!(clip_intersection(&rect(0, 0, 100, 50), &region, &lists), None);
}

#[test]
fn clip_intersection_is_none_where_a_corner_leaves_no_inner_rect() {
    let mut lists = AuxiliaryLists::new();
    lists.complex_clip_regions.push(ComplexClipRegion { rect: rect(0, 0, 10, 10), radii: uniform(6) });
    let mut region = ClipRegion::simple(&rect(0, 0, 100, 100));
    region.complex = ItemRange::new(0, 1);
    assert_eq!(clip_intersection(&rect(0, 0, 100, 100), &region, &lists), None);
}

#[test]
fn clip_intersection_is_none_under_an_image_mask() {
    let lists = AuxiliaryLists::new();
    let mut region = ClipRegion::simple(&rect(0, 0, 100, 100));
    region.image_mask = Some(ImageMask { image: ImageKey(0, 1), rect: rect(0, 0, 100, 100), repeat: false });
    assert_eq!(clip_intersection(&rect(0, 0, 100, 100), &region, &lists), None);
}

#[test]
fn mix_blend_mode_normal_does_not_blend() {
    let mut sc = stacking_context();
    assert_eq!(sc.mix_blend_mode_for_compositing(), None);
    sc.mix_blend_mode = MixBlendMode::Multiply;
    assert_eq!(sc.mix_blend_mode_for_compositing(), Some(MixBlendMode::Multiply));
    sc.mix_blend_mode = MixBlendMode::Luminosity;
    assert_eq!(sc.mix_blend_mode_for_compositing(), Some(MixBlendMode::Luminosity));
}

#[test]
fn filters_are_lowered_in_order() {
    let mut lists = AuxiliaryLists::new();
    lists.filters.push(FilterOp::Sepia(1));
    lists.filters.push(FilterOp::Blur(120));
    lists.filters.push(FilterOp::Brightness(30));
    lists.filters.push(FilterOp::Contrast(31));
    lists.filters.push(FilterOp::Grayscale(32));
    lists.filters.push(FilterOp::HueRotate(16384));
    lists.filters.push(FilterOp::Invert(33));
    lists.filters.push(FilterOp::Opacity(AmountBinding::Value(45)));
    lists.filters.push(FilterOp::Saturate(34));
    lists.filters.push(FilterOp::Sepia(35));
    let mut sc = stacking_context();
    sc.filters = ItemRange::new(1, 9);
    let ops = sc.filter_ops_for_compositing(&lists, &SceneProperties::new());
    assert_eq!(
        ops,
        vec![
            LowLevelFilterOp::Blur(120, AxisDirection::Horizontal),
            LowLevelFilterOp::Blur(120, AxisDirection::Vertical),
            LowLevelFilterOp::Brightness(30),
            LowLevelFilterOp::Contrast(31),
            LowLevelFilterOp::Grayscale(32),
            LowLevelFilterOp::HueRotate(16384),
            LowLevelFilterOp::Invert(33),
            LowLevelFilterOp::Opacity(45),
            LowLevelFilterOp::Saturate(34),
            LowLevelFilterOp::Sepia(35),
        ]
    );
    sc.filters = ItemRange::new(3, 0);
    assert!(sc.filter_ops_for_compositing(&lists, &SceneProperties::new()).is_empty());
}

#[test]
fn bound_opacity_is_resolved_and_defaults_to_full() {
    let mut lists = AuxiliaryLists::new();
    lists.filters.push(FilterOp::Opacity(AmountBinding::Binding(PropertyBindingKey(9))));
    let mut sc = stacking_context();
    sc.filters = ItemRange::new(0, 1);
    let mut properties = SceneProperties::new();
    assert_eq!(
        sc.filter_ops_for_compositing(&lists, &properties),
        vec![LowLevelFilterOp::Opacity(60)]
    );
    properties.set_float(PropertyBindingKey(9), 15);
    assert_eq!(
        sc.filter_ops_for_compositing(&lists, &properties),
        vec![LowLevelFilterOp::Opacity(15)]
    );
}

#[test]
fn resolve_float_and_transform() {
    let mut properties = SceneProperties::new();
    properties.set_float(PropertyBindingKey(1), 7);
    properties.set_transform(PropertyBindingKey(2), TransformId(77));
    assert_eq!(properties.resolve_float(&AmountBinding::Value(3), 60), 3);
    assert_eq!(properties.resolve_float(&AmountBinding::Binding(PropertyBindingKey(1)), 60), 7);
    assert_eq!(properties.resolve_float(&AmountBinding::Binding(PropertyBindingKey(5)), 60), 60);
    assert_eq!(properties.resolve_layout_transform(None), ResolvedTransform::Identity);
    assert_eq!(
        properties.resolve_layout_transform(Some(&TransformBinding::Value(TransformId(4)))),
        ResolvedTransform::Matrix(TransformId(4))
    );
    assert_eq!(
        properties.resolve_layout_transform(Some(&TransformBinding::Binding(PropertyBindingKey(2)))),
        ResolvedTransform::Matrix(TransformId(77))
    );
    assert_eq!(
        properties.resolve_layout_transform(Some(&TransformBinding::Binding(PropertyBindingKey(3)))),
        ResolvedTransform::Identity
    );
}

#[test]
fn zero_opacity_makes_invisible() {
    let visible = CompositeOps::new(
        vec![LowLevelFilterOp::Opacity(1), LowLevelFilterOp::Brightness(0)],
        None,
    );
    assert!(!visible.will_make_invisible());
    let hidden = CompositeOps::new(
        vec![LowLevelFilterOp::Sepia(3), LowLevelFilterOp::Opacity(0)],
        Some(MixBlendMode::Screen),
    );
    assert!(hidden.will_make_invisible());
    assert!(!CompositeOps::new(Vec::new(), None).will_make_invisible());
}

#[test]
fn clip_item_fields() {
    let clip = ClipDisplayItem { id: layer(), content_size: LayerSize::new(3, 4) };
    assert_eq!(clip.content_size, LayerSize::new(3, 4));
    assert_eq!(ClipRegion::simple(&rect(1, 2, 3, 4)).main, rect(1, 2, 3, 4));
    assert_eq!(ClipRegion::simple(&rect(1, 2, 3, 4)).complex, ItemRange::new(0, 0));
    assert!(ItemRange::new(2, 3).fits(5));
    assert!(!ItemRange::new(2, 4).fits(5));
}
