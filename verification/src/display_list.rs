//! The display list of one pipeline: a flat, depth-first sequence of items,
//! and the out-of-line payload that its items refer to by range.

use crate::geometry::{LayerPoint, LayerRect, LayerSize};
use vstd::prelude::*;

verus! {

/// Names one content document: the root document or an embedded one.
#[derive(Clone, Copy, Debug, PartialEq, Eq, Structural)]
pub struct PipelineId(pub u32, pub u32);

/// The version of a pipeline's display list.
#[derive(Clone, Copy, Debug, PartialEq, Eq, Structural)]
pub struct Epoch(pub u32);

/// Names one node of the clip-scroll tree.
#[derive(Clone, Copy, Debug, PartialEq, Eq, Structural)]
pub enum ScrollLayerId {
    Clip(u64, PipelineId),
    ClipExternalId(u64, PipelineId),
    ReferenceFrame(u64, PipelineId),
}

#[derive(Clone, Copy, Debug, PartialEq, Eq, Structural)]
pub struct ImageKey(pub u32, pub u32);

#[derive(Clone, Copy, Debug, PartialEq, Eq, Structural)]
pub struct FontKey(pub u32, pub u32);

#[derive(Clone, Copy, Debug, PartialEq, Eq, Structural)]
pub struct WebGLContextId(pub u64);

/// Names a 4x4 matrix that is kept outside this crate.
#[derive(Clone, Copy, Debug, PartialEq, Eq, Structural)]
pub struct TransformId(pub u64);

/// Names an animated property of the scene.
#[derive(Clone, Copy, Debug, PartialEq, Eq, Structural)]
pub struct PropertyBindingKey(pub u64);

/// A colour with eight bits to the channel; `a == 0` is fully transparent.
#[derive(Clone, Copy, Debug, PartialEq, Eq, Structural)]
pub struct Color {
    pub r: u8,
    pub g: u8,
    pub b: u8,
    pub a: u8,
}

/// `length` consecutive entries of one of the auxiliary lists, from
/// `start` on.
#[derive(Clone, Copy, Debug, PartialEq, Eq, Structural)]
pub struct ItemRange {
    pub start: usize,
    pub length: usize,
}

#[derive(Clone, Copy, Debug, PartialEq, Eq, Structural)]
pub enum ImageRendering {
    Auto,
    CrispEdges,
    Pixelated,
}

#[derive(Clone, Copy, Debug, PartialEq, Eq, Structural)]
pub enum YuvColorSpace {
    Rec601,
    Rec709,
}

#[derive(Clone, Copy, Debug, PartialEq, Eq, Structural)]
pub enum ExtendMode {
    Clamp,
    Repeat,
}

#[derive(Clone, Copy, Debug, PartialEq, Eq, Structural)]
pub enum BoxShadowClipMode {
    Unclipped,
    Outset,
    Inset,
}

#[derive(Clone, Copy, Debug, PartialEq, Eq, Structural)]
pub enum BorderStyle {
    Absent,
    Solid,
    Double,
    Dotted,
    Dashed,
    Hidden,
    Groove,
    Ridge,
    Inset,
    Outset,
}

#[derive(Clone, Copy, Debug, PartialEq, Eq, Structural)]
pub enum MixBlendMode {
    Normal,
    Multiply,
    Screen,
    Overlay,
    Darken,
    Lighten,
    ColorDodge,
    ColorBurn,
    HardLight,
    SoftLight,
    Difference,
    Exclusion,
    Hue,
    Saturation,
    Color,
    Luminosity,
}

#[derive(Clone, Copy, Debug, PartialEq, Eq, Structural)]
pub enum ScrollPolicy {
    Scrollable,
    Fixed,
}

/// An amount that is either given or bound to an animated property.
#[derive(Clone, Copy, Debug, PartialEq, Eq, Structural)]
pub enum AmountBinding {
    Value(i32),
    Binding(PropertyBindingKey),
}

/// A matrix that is either given or bound to an animated property.
#[derive(Clone, Copy, Debug, PartialEq, Eq, Structural)]
pub enum TransformBinding {
    Value(TransformId),
    Binding(PropertyBindingKey),
}

/// One filter of a stacking context. Amounts are in layout units, so that
/// `UNITS_PER_PIXEL` stands for 1.0; the angle of `HueRotate` is in the fixed
/// point that the compositor uses.
#[derive(Clone, Copy, Debug, PartialEq, Eq, Structural)]
pub enum FilterOp {
    Blur(i32),
    Brightness(i32),
    Contrast(i32),
    Grayscale(i32),
    HueRotate(i32),
    Invert(i32),
    Opacity(AmountBinding),
    Saturate(i32),
    Sepia(i32),
}

#[derive(Clone, Copy, Debug, PartialEq, Eq, Structural)]
pub struct BorderRadius {
    pub top_left: LayerSize,
    pub top_right: LayerSize,
    pub bottom_left: LayerSize,
    pub bottom_right: LayerSize,
}

/// A rectangle with rounded corners that clips what lies inside a region.
#[derive(Clone, Copy, Debug, PartialEq, Eq, Structural)]
pub struct ComplexClipRegion {
    pub rect: LayerRect,
    pub radii: BorderRadius,
}

#[derive(Clone, Copy, Debug, PartialEq, Eq, Structural)]
pub struct ImageMask {
    pub image: ImageKey,
    pub rect: LayerRect,
    pub repeat: bool,
}

/// The visible area of an item and of all that it contains.
#[derive(Clone, Copy, Debug, PartialEq, Eq, Structural)]
pub struct ClipRegion {
    pub main: LayerRect,
    pub complex: ItemRange,
    pub image_mask: Option<ImageMask>,
}

#[derive(Clone, Copy, Debug, PartialEq, Eq, Structural)]
pub struct GradientStop {
    pub offset: i32,
    pub color: Color,
}

#[derive(Clone, Copy, Debug, PartialEq, Eq, Structural)]
pub struct GlyphInstance {
    pub index: u32,
    pub x: i32,
    pub y: i32,
}

#[derive(Clone, Copy, Debug, PartialEq, Eq, Structural)]
pub struct GlyphOptions {
    pub use_embedded_bitmap: bool,
    pub force_gdi_rendering: bool,
}

#[derive(Clone, Copy, Debug, PartialEq, Eq, Structural)]
pub struct StackingContext {
    pub scroll_policy: ScrollPolicy,
    pub transform: Option<TransformBinding>,
    pub perspective: Option<TransformId>,
    pub mix_blend_mode: MixBlendMode,
    pub filters: ItemRange,
}

#[derive(Clone, Copy, Debug, PartialEq, Eq, Structural)]
pub struct PushStackingContextDisplayItem {
    pub stacking_context: StackingContext,
}

#[derive(Clone, Copy, Debug, PartialEq, Eq, Structural)]
pub struct ClipDisplayItem {
    pub id: ScrollLayerId,
    pub content_size: LayerSize,
}

#[derive(Clone, Copy, Debug, PartialEq, Eq, Structural)]
pub struct RectangleDisplayItem {
    pub color: Color,
}

#[derive(Clone, Copy, Debug, PartialEq, Eq, Structural)]
pub struct ImageDisplayItem {
    pub image_key: ImageKey,
    pub stretch_size: LayerSize,
    pub tile_spacing: LayerSize,
    pub image_rendering: ImageRendering,
}

#[derive(Clone, Copy, Debug, PartialEq, Eq, Structural)]
pub struct YuvImageDisplayItem {
    pub y_image_key: ImageKey,
    pub u_image_key: ImageKey,
    pub v_image_key: ImageKey,
    pub color_space: YuvColorSpace,
}

#[derive(Clone, Copy, Debug, PartialEq, Eq, Structural)]
pub struct TextDisplayItem {
    pub glyphs: ItemRange,
    pub font_key: FontKey,
    pub size: i32,
    pub color: Color,
    pub blur_radius: i32,
    pub glyph_options: Option<GlyphOptions>,
}

#[derive(Clone, Copy, Debug, PartialEq, Eq, Structural)]
pub struct Gradient {
    pub start_point: LayerPoint,
    pub end_point: LayerPoint,
    pub stops: ItemRange,
    pub extend_mode: ExtendMode,
}

#[derive(Clone, Copy, Debug, PartialEq, Eq, Structural)]
pub struct GradientDisplayItem {
    pub gradient: Gradient,
}

#[derive(Clone, Copy, Debug, PartialEq, Eq, Structural)]
pub struct RadialGradient {
    pub start_center: LayerPoint,
    pub start_radius: i32,
    pub end_center: LayerPoint,
    pub end_radius: i32,
    pub stops: ItemRange,
    pub extend_mode: ExtendMode,
}

#[derive(Clone, Copy, Debug, PartialEq, Eq, Structural)]
pub struct RadialGradientDisplayItem {
    pub gradient: RadialGradient,
}

#[derive(Clone, Copy, Debug, PartialEq, Eq, Structural)]
pub struct BoxShadowDisplayItem {
    pub box_bounds: LayerRect,
    pub offset: LayerPoint,
    pub color: Color,
    pub blur_radius: i32,
    pub spread_radius: i32,
    pub border_radius: i32,
    pub clip_mode: BoxShadowClipMode,
}

#[derive(Clone, Copy, Debug, PartialEq, Eq, Structural)]
pub struct BorderSide {
    pub width: i32,
    pub color: Color,
    pub style: BorderStyle,
}

#[derive(Clone, Copy, Debug, PartialEq, Eq, Structural)]
pub struct BorderDisplayItem {
    pub left: BorderSide,
    pub right: BorderSide,
    pub top: BorderSide,
    pub bottom: BorderSide,
    pub radius: BorderRadius,
}

#[derive(Clone, Copy, Debug, PartialEq, Eq, Structural)]
pub struct IframeDisplayItem {
    pub pipeline_id: PipelineId,
}

#[derive(Clone, Copy, Debug, PartialEq, Eq, Structural)]
pub struct WebGLDisplayItem {
    pub context_id: WebGLContextId,
}

#[derive(Clone, Copy, Debug, PartialEq, Eq, Structural)]
pub enum SpecificDisplayItem {
    Clip(ClipDisplayItem),
    Rectangle(RectangleDisplayItem),
    Text(TextDisplayItem),
    Image(ImageDisplayItem),
    YuvImage(YuvImageDisplayItem),
    WebGL(WebGLDisplayItem),
    Border(BorderDisplayItem),
    BoxShadow(BoxShadowDisplayItem),
    Gradient(GradientDisplayItem),
    RadialGradient(RadialGradientDisplayItem),
    Iframe(IframeDisplayItem),
    PushStackingContext(PushStackingContextDisplayItem),
    PopStackingContext,
}

#[derive(Clone, Copy, Debug, PartialEq, Eq, Structural)]
pub struct DisplayItem {
    pub item: SpecificDisplayItem,
    pub rect: LayerRect,
    pub clip: ClipRegion,
    pub scroll_layer_id: ScrollLayerId,
}

/// The out-of-line payload of one pipeline's display list.
#[derive(Clone, Debug)]
pub struct AuxiliaryLists {
    pub gradient_stops: Vec<GradientStop>,
    pub complex_clip_regions: Vec<ComplexClipRegion>,
    pub filters: Vec<FilterOp>,
    pub glyph_instances: Vec<GlyphInstance>,
}

impl PipelineId {
    /// The pipeline's two numbers as one: maps are keyed by it.
    pub open spec fn spec_key(self) -> u64 {
        (self.0 * 0x1_0000_0000 + self.1) as u64
    }

    pub fn key(&self) -> (k: u64)
        ensures
            k == self.spec_key(),
    {
        self.0 as u64 * 0x1_0000_0000 + self.1 as u64
    }

    /// Different pipelines have different keys.
    pub proof fn lemma_key_is_injective(a: PipelineId, b: PipelineId)
        ensures
            a.spec_key() == b.spec_key() <==> a == b,
    {
    }
}

impl ScrollLayerId {
    pub open spec fn spec_root_scroll_layer(pipeline_id: PipelineId) -> ScrollLayerId {
        ScrollLayerId::Clip(0, pipeline_id)
    }

    /// The scroll node that holds the whole content of a pipeline.
    pub fn root_scroll_layer(pipeline_id: PipelineId) -> (id: ScrollLayerId)
        ensures
            id == Self::spec_root_scroll_layer(pipeline_id),
    {
        ScrollLayerId::Clip(0, pipeline_id)
    }

    pub open spec fn spec_root_reference_frame(pipeline_id: PipelineId) -> ScrollLayerId {
        ScrollLayerId::ReferenceFrame(0, pipeline_id)
    }

    /// The reference frame that a pipeline's root scroll node hangs from.
    pub fn root_reference_frame(pipeline_id: PipelineId) -> (id: ScrollLayerId)
        ensures
            id == Self::spec_root_reference_frame(pipeline_id),
    {
        ScrollLayerId::ReferenceFrame(0, pipeline_id)
    }

    pub open spec fn spec_pipeline_id(self) -> PipelineId {
        match self {
            ScrollLayerId::Clip(_, pipeline_id) => pipeline_id,
            ScrollLayerId::ClipExternalId(_, pipeline_id) => pipeline_id,
            ScrollLayerId::ReferenceFrame(_, pipeline_id) => pipeline_id,
        }
    }

    pub fn pipeline_id(&self) -> (pipeline_id: PipelineId)
        ensures
            pipeline_id == self.spec_pipeline_id(),
    {
        match *self {
            ScrollLayerId::Clip(_, pipeline_id) => pipeline_id,
            ScrollLayerId::ClipExternalId(_, pipeline_id) => pipeline_id,
            ScrollLayerId::ReferenceFrame(_, pipeline_id) => pipeline_id,
        }
    }

    pub fn is_reference_frame(&self) -> (yes: bool)
        ensures
            yes == (*self is ReferenceFrame),
    {
        match *self {
            ScrollLayerId::ReferenceFrame(..) => true,
            _ => false,
        }
    }
}

impl ItemRange {
    pub fn new(start: usize, length: usize) -> (range: ItemRange)
        ensures
            range == (ItemRange { start, length }),
    {
        ItemRange { start, length }
    }

    pub fn empty() -> (range: ItemRange)
        ensures
            range == (ItemRange { start: 0, length: 0 }),
    {
        ItemRange { start: 0, length: 0 }
    }

    /// Whether every entry of the range exists in a list of `len` entries.
    pub open spec fn spec_fits(self, len: nat) -> bool {
        self.start + self.length <= len
    }

    pub fn fits(&self, len: usize) -> (yes: bool)
        ensures
            yes == self.spec_fits(len as nat),
    {
        self.start <= len && self.length <= len - self.start
    }

    /// The entries of `list` that the range names.
    pub open spec fn of<T>(self, list: Seq<T>) -> Seq<T> {
        list.subrange(self.start as int, self.start + self.length)
    }
}

impl ClipRegion {
    pub open spec fn spec_simple(rect: LayerRect) -> ClipRegion {
        ClipRegion { main: rect, complex: ItemRange { start: 0, length: 0 }, image_mask: None }
    }

    /// The region that clips to `rect` and nothing else.
    pub fn simple(rect: &LayerRect) -> (region: ClipRegion)
        ensures
            region == Self::spec_simple(*rect),
    {
        ClipRegion { main: *rect, complex: ItemRange::empty(), image_mask: None }
    }
}

impl AuxiliaryLists {
    pub fn new() -> (lists: AuxiliaryLists)
        ensures
            lists.gradient_stops@.len() == 0,
            lists.complex_clip_regions@.len() == 0,
            lists.filters@.len() == 0,
            lists.glyph_instances@.len() == 0,
    {
        AuxiliaryLists {
            gradient_stops: Vec::new(),
            complex_clip_regions: Vec::new(),
            filters: Vec::new(),
            glyph_instances: Vec::new(),
        }
    }

    /// The filters that `range` names.
    pub open spec fn spec_filters(self, range: ItemRange) -> Seq<FilterOp> {
        range.of(self.filters@)
    }

    /// The rounded clips that `range` names.
    pub open spec fn spec_complex_clip_regions(self, range: ItemRange) -> Seq<ComplexClipRegion> {
        range.of(self.complex_clip_regions@)
    }
}

impl DisplayItem {
    /// Whether the ranges that flattening reads from this item lie inside
    /// `lists`: the rounded clips of its clip region and, for a stacking
    /// context, its filters.
    pub open spec fn spec_ranges_fit(self, lists: AuxiliaryLists) -> bool {
        &&& self.clip.complex.spec_fits(lists.complex_clip_regions@.len())
        &&& match self.item {
            SpecificDisplayItem::PushStackingContext(info) => info.stacking_context.filters.spec_fits(
                lists.filters@.len(),
            ),
            _ => true,
        }
    }

    pub fn ranges_fit(&self, lists: &AuxiliaryLists) -> (yes: bool)
        ensures
            yes == self.spec_ranges_fit(*lists),
    {
        self.clip.complex.fits(lists.complex_clip_regions.len()) && match self.item {
            SpecificDisplayItem::PushStackingContext(info) => info.stacking_context.filters.fits(
                lists.filters.len(),
            ),
            _ => true,
        }
    }
}

/// Whether every item of `list` reads only ranges that lie inside `lists`.
pub open spec fn spec_display_list_fits(list: Seq<DisplayItem>, lists: AuxiliaryLists) -> bool {
    forall|i: int| 0 <= i < list.len() ==> (#[trigger] list[i]).spec_ranges_fit(lists)
}

pub fn display_list_fits(list: &Vec<DisplayItem>, lists: &AuxiliaryLists) -> (yes: bool)
    ensures
        yes == spec_display_list_fits(list@, *lists),
{
    let mut i: usize = 0;
    while i < list.len()
        invariant
            i <= list.len(),
            forall|j: int| 0 <= j < i ==> (#[trigger] list@[j]).spec_ranges_fit(*lists),
        decreases list.len() - i,
    {
        if !list[i].ranges_fit(lists) {
            return false;
        }
        i += 1;
    }
    true
}

/// The stacking context that opens `list` and its bounds, if `list` starts
/// with one.
pub open spec fn spec_starting_stacking_context(list: Seq<DisplayItem>) -> Option<
    (StackingContext, LayerRect),
> {
    if list.len() == 0 {
        None
    } else {
        match list[0].item {
            SpecificDisplayItem::PushStackingContext(info) => Some(
                (info.stacking_context, list[0].rect),
            ),
            _ => None,
        }
    }
}

pub fn starting_stacking_context(list: &Vec<DisplayItem>) -> (start: Option<
    (StackingContext, LayerRect),
>)
    ensures
        start == spec_starting_stacking_context(list@),
{
    if list.len() == 0 {
        return None;
    }
    let first = list[0];
    match first.item {
        SpecificDisplayItem::PushStackingContext(info) => Some((info.stacking_context, first.rect)),
        _ => None,
    }
}

} // verus!
