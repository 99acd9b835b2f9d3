//! Cutting one image item into the primitives that draw it, when the image
//! is stored as a grid of tiles.
//!
//! The work is done for each axis by itself. Where the image repeats inside
//! the item's box and the repeats cannot be left to sampling, the box is
//! first cut into one rectangle for each repeat. Each such rectangle is then
//! cut along the grid of the image's tiles.
//!
//! A position `p` in image pixels lies at `p * stretch / image` layout units
//! from the item's origin, rounded down. A tile reaches from the place of its
//! first pixel to the place of the pixel behind its last, so neighbouring
//! tiles share their edge exactly.

use crate::clip_scroll_tree::DeviceUintSize;
use crate::display_list::{ClipRegion, ImageDisplayItem, ScrollLayerId};
use crate::frame_builder::{FrameBuilder, Primitive, PrimitiveKind, TileOffset};
use crate::geometry::{
    clamp_unit, cover_count, lemma_clip_edges_is_common_part, lemma_cover_count_concat,
    lemma_cover_count_push, spec_clip_edges, LayerBox, LayerRect, LayerSize,
};
use vstd::arithmetic::div_mod::{
    lemma_div_is_ordered, lemma_div_plus_one, lemma_fundamental_div_mod,
    lemma_fundamental_div_mod_converse,
};
use vstd::arithmetic::mul::lemma_mul_inequality;
use vstd::prelude::*;

verus! {

/// An image item and what the resource cache says of its image: all that
/// stays the same while the item's box is cut up.
#[derive(Clone, Copy, Debug, PartialEq, Eq, Structural)]
pub struct TiledImage {
    pub scroll_layer_id: ScrollLayerId,
    pub clip: ClipRegion,
    pub info: ImageDisplayItem,
    pub image_size: DeviceUintSize,
    pub tile_size: u32,
}

/// The distance in layout units at which position `p` of an image of
/// `image` pixels lies, when the image is stretched over `stretch` units.
pub open spec fn spec_scale(p: int, image: int, stretch: int) -> int {
    (p * stretch) / image
}

/// How many tiles an extent of `image` pixels takes: the whole tiles, and
/// one more for what is left over, if anything is.
pub open spec fn spec_tile_count(image: int, tile: int) -> int {
    image / tile + if image % tile != 0 {
        1int
    } else {
        0int
    }
}

/// How many pixels tile `k` holds along an axis: `tile` for a whole tile,
/// what is left over for the one behind the whole tiles.
pub open spec fn spec_tile_portion(k: int, image: int, tile: int) -> int {
    if k < image / tile {
        tile
    } else {
        image % tile
    }
}

/// Whether repeats along an axis are left to sampling: the image,
/// stretched, is smaller than the box.
pub open spec fn spec_repeats(stretch: int, extent: int) -> bool {
    stretch < extent
}

/// The near edge of tile `k` along an axis.
pub open spec fn spec_tile_min(origin: int, k: int, image: int, tile: int, stretch: int) -> int {
    origin + spec_scale(k * tile, image, stretch)
}

/// The far edge of tile `k` along an axis, before it is clipped to the box:
/// the far edge of the box where repeats are left to sampling.
pub open spec fn spec_tile_max(
    origin: int,
    extent: int,
    k: int,
    image: int,
    tile: int,
    stretch: int,
) -> int {
    if spec_repeats(stretch, extent) {
        origin + extent
    } else {
        origin + spec_scale(k * tile + spec_tile_portion(k, image, tile), image, stretch)
    }
}

/// The size of tile `k` along an axis, stretched.
pub open spec fn spec_tile_stretch(k: int, image: int, tile: int, stretch: int) -> int {
    spec_scale(k * tile + spec_tile_portion(k, image, tile), image, stretch) - spec_scale(
        k * tile,
        image,
        stretch,
    )
}

impl TiledImage {
    pub open spec fn spec_columns(self) -> int {
        spec_tile_count(self.image_size.width as int, self.tile_size as int)
    }

    pub open spec fn spec_rows(self) -> int {
        spec_tile_count(self.image_size.height as int, self.tile_size as int)
    }

    /// What the cutting of `item_rect` along the tile grid asks of it: on an
    /// axis on which repeats are left to sampling the image is one tile.
    pub open spec fn spec_fits_grid(self, item_rect: LayerRect) -> bool {
        &&& self.tile_size > 0
        &&& spec_repeats(self.info.stretch_size.width as int, item_rect.size.width as int)
            ==> self.image_size.width <= self.tile_size
        &&& spec_repeats(self.info.stretch_size.height as int, item_rect.size.height as int)
            ==> self.image_size.height <= self.tile_size
    }

    /// The rectangle of the tile at `(tx, ty)`, clipped to `item_rect`; `None`
    /// if nothing of the tile lies inside.
    pub open spec fn spec_tile_rect(self, item_rect: LayerRect, tx: int, ty: int) -> Option<
        LayerRect,
    > {
        spec_clip_edges(
            spec_tile_min(
                item_rect.origin.x as int,
                tx,
                self.image_size.width as int,
                self.tile_size as int,
                self.info.stretch_size.width as int,
            ),
            spec_tile_min(
                item_rect.origin.y as int,
                ty,
                self.image_size.height as int,
                self.tile_size as int,
                self.info.stretch_size.height as int,
            ),
            spec_tile_max(
                item_rect.origin.x as int,
                item_rect.size.width as int,
                tx,
                self.image_size.width as int,
                self.tile_size as int,
                self.info.stretch_size.width as int,
            ),
            spec_tile_max(
                item_rect.origin.y as int,
                item_rect.size.height as int,
                ty,
                self.image_size.height as int,
                self.tile_size as int,
                self.info.stretch_size.height as int,
            ),
            item_rect,
        )
    }

    /// The primitive that draws `rect` from the tile at `(tx, ty)`.
    pub open spec fn spec_tile_primitive_in(self, rect: LayerRect, tx: int, ty: int) -> Primitive {
        Primitive {
            scroll_layer_id: self.scroll_layer_id,
            rect,
            clip: self.clip,
            kind: PrimitiveKind::Image {
                stretch_size: LayerSize {
                    width: spec_tile_stretch(
                        tx,
                        self.image_size.width as int,
                        self.tile_size as int,
                        self.info.stretch_size.width as int,
                    ) as i32,
                    height: spec_tile_stretch(
                        ty,
                        self.image_size.height as int,
                        self.tile_size as int,
                        self.info.stretch_size.height as int,
                    ) as i32,
                },
                tile_spacing: self.info.tile_spacing,
                image_key: self.info.image_key,
                image_rendering: self.info.image_rendering,
                tile_offset: Some(TileOffset { x: tx as u32, y: ty as u32 }),
            },
        }
    }

    /// What the tile at `(tx, ty)` adds to the frame: one primitive, or
    /// nothing if the tile lies outside `item_rect`.
    pub open spec fn spec_tile_primitives(self, item_rect: LayerRect, tx: int, ty: int) -> Seq<
        Primitive,
    > {
        match self.spec_tile_rect(item_rect, tx, ty) {
            Some(rect) => seq![self.spec_tile_primitive_in(rect, tx, ty)],
            None => Seq::empty(),
        }
    }

    /// The primitives of the first `columns` tiles of row `ty`, from the
    /// left.
    pub open spec fn spec_tile_row(self, item_rect: LayerRect, ty: int, columns: nat) -> Seq<
        Primitive,
    >
        decreases columns,
    {
        if columns == 0 {
            Seq::empty()
        } else {
            self.spec_tile_row(item_rect, ty, (columns - 1) as nat) + self.spec_tile_primitives(
                item_rect,
                columns - 1,
                ty,
            )
        }
    }

    /// The primitives of the first `rows` rows of tiles, from the top.
    pub open spec fn spec_tile_rows(self, item_rect: LayerRect, rows: nat) -> Seq<Primitive>
        decreases rows,
    {
        if rows == 0 {
            Seq::empty()
        } else {
            self.spec_tile_rows(item_rect, (rows - 1) as nat) + self.spec_tile_row(
                item_rect,
                rows - 1,
                self.spec_columns() as nat,
            )
        }
    }

    /// The primitives that draw `item_rect` tile by tile: row after row from
    /// the top, each from the left.
    pub open spec fn spec_decompose_tiled_image(self, item_rect: LayerRect) -> Seq<Primitive> {
        self.spec_tile_rows(item_rect, self.spec_rows() as nat)
    }

    /// The distance from one repeat to the next, along x and along y.
    pub open spec fn spec_stride_x(self) -> int {
        self.info.stretch_size.width + self.info.tile_spacing.width
    }

    pub open spec fn spec_stride_y(self) -> int {
        self.info.stretch_size.height + self.info.tile_spacing.height
    }

    /// The part of `item_rect` that repeat `i` along x takes.
    pub open spec fn spec_column_rect(self, item_rect: LayerRect, i: int) -> Option<LayerRect> {
        spec_clip_edges(
            item_rect.origin.x + i * self.spec_stride_x(),
            item_rect.origin.y as int,
            item_rect.origin.x + i * self.spec_stride_x() + self.info.stretch_size.width,
            item_rect.origin.y + item_rect.size.height,
            item_rect,
        )
    }

    /// The part of `item_rect` that repeat `i` along y takes.
    pub open spec fn spec_row_rect(self, item_rect: LayerRect, i: int) -> Option<LayerRect> {
        spec_clip_edges(
            item_rect.origin.x as int,
            item_rect.origin.y + i * self.spec_stride_y(),
            item_rect.origin.x + item_rect.size.width,
            item_rect.origin.y + i * self.spec_stride_y() + self.info.stretch_size.height,
            item_rect,
        )
    }

    /// The primitives of the first `repeats` repeats along x.
    pub open spec fn spec_columns_repeated(self, item_rect: LayerRect, repeats: nat) -> Seq<
        Primitive,
    >
        decreases repeats,
    {
        if repeats == 0 {
            Seq::empty()
        } else {
            self.spec_columns_repeated(item_rect, (repeats - 1) as nat)
                + match self.spec_column_rect(
                item_rect,
                repeats - 1,
            ) {
                Some(rect) => self.spec_decompose_tiled_image(rect),
                None => Seq::empty(),
            }
        }
    }

    /// The primitives that draw one row of repeats. Where the image is one
    /// tile wide and its repeats touch, the row is drawn as it is; else
    /// repeat by repeat from the left.
    pub open spec fn spec_decompose_image_row(self, item_rect: LayerRect) -> Seq<Primitive> {
        if !spec_needs_split(
            self.image_size.width as int,
            self.tile_size as int,
            self.info.tile_spacing.width as int,
        ) {
            self.spec_decompose_tiled_image(item_rect)
        } else {
            self.spec_columns_repeated(
                item_rect,
                spec_repetitions(item_rect.size.width as int, self.spec_stride_x()) as nat,
            )
        }
    }

    /// The primitives of the first `repeats` repeats along y.
    pub open spec fn spec_rows_repeated(self, item_rect: LayerRect, repeats: nat) -> Seq<Primitive>
        decreases repeats,
    {
        if repeats == 0 {
            Seq::empty()
        } else {
            self.spec_rows_repeated(item_rect, (repeats - 1) as nat) + match self.spec_row_rect(
                item_rect,
                repeats - 1,
            ) {
                Some(rect) => self.spec_decompose_image_row(rect),
                None => Seq::empty(),
            }
        }
    }

    /// The primitives that draw an image item. Where the image is one tile
    /// high and its repeats touch, the item is drawn as one row; else row by
    /// row from the top.
    pub open spec fn spec_decompose_image(self, item_rect: LayerRect) -> Seq<Primitive> {
        if !spec_needs_split(
            self.image_size.height as int,
            self.tile_size as int,
            self.info.tile_spacing.height as int,
        ) {
            self.spec_decompose_image_row(item_rect)
        } else {
            self.spec_rows_repeated(
                item_rect,
                spec_repetitions(item_rect.size.height as int, self.spec_stride_y()) as nat,
            )
        }
    }
}

/// Whether the repeats along an axis have to be drawn one by one: the image
/// is more than one tile long there, or there is space between its repeats.
pub open spec fn spec_needs_split(image: int, tile: int, spacing: int) -> bool {
    !(image <= tile && spacing == 0)
}

/// How many repeats at a distance of `stride` begin inside `extent`: the
/// quotient, rounded up. None if either is not positive.
pub open spec fn spec_repetitions(extent: int, stride: int) -> int {
    if extent <= 0 || stride <= 0 {
        0
    } else {
        (extent + stride - 1) / stride
    }
}

/// Every repeat that is counted begins inside the extent.
pub proof fn lemma_repeat_begins_inside(i: int, extent: int, stride: int)
    requires
        0 <= i < spec_repetitions(extent, stride),
    ensures
        0 <= i * stride < extent,
        stride > 0,
{
    lemma_fundamental_div_mod(extent + stride - 1, stride);
    let n = (extent + stride - 1) / stride;
    assert(i * stride <= (n - 1) * stride) by (nonlinear_arith)
        requires
            i <= n - 1,
            stride > 0,
    ;
    assert((n - 1) * stride == stride * n - stride) by (nonlinear_arith);
}

/// How many repeats at a distance of `stride` begin inside `extent`.
pub fn repetitions(extent: i32, stride: i64) -> (count: i64)
    ensures
        count == spec_repetitions(extent as int, stride as int),
        0 <= count <= 0x8000_0000,
{
    if extent <= 0 || stride <= 0 {
        0
    } else {
        let count = (extent as i64 - 1) / stride + 1;
        proof {
            let e = extent as int;
            let d = stride as int;
            lemma_div_plus_one(e - 1, d);
        }
        count
    }
}

pub proof fn lemma_scale_of_ends(image: int, stretch: int)
    requires
        image > 0,
    ensures
        spec_scale(0, image, stretch) == 0,
        spec_scale(image, image, stretch) == stretch,
{
    assert(0 * stretch == 0);
    lemma_fundamental_div_mod_converse(image * stretch, image, stretch, 0);
}

/// Scaling keeps the order of positions, or turns it round where the
/// stretch is negative.
pub proof fn lemma_scale_is_monotone(p: int, q: int, image: int, stretch: int)
    requires
        image > 0,
        p <= q,
    ensures
        stretch >= 0 ==> spec_scale(p, image, stretch) <= spec_scale(q, image, stretch),
        stretch <= 0 ==> spec_scale(p, image, stretch) >= spec_scale(q, image, stretch),
{
    if stretch >= 0 {
        lemma_mul_inequality(p, q, stretch);
        lemma_div_is_ordered(p * stretch, q * stretch, image);
    }
    if stretch <= 0 {
        assert(q * stretch <= p * stretch) by (nonlinear_arith)
            requires
                p <= q,
                stretch <= 0,
        ;
        lemma_div_is_ordered(q * stretch, p * stretch, image);
    }
}

/// A position inside the image lies between the item's origin and the end
/// of the stretched image.
pub proof fn lemma_scale_is_bounded(p: int, image: int, stretch: int)
    requires
        image > 0,
        0 <= p <= image,
    ensures
        stretch >= 0 ==> 0 <= spec_scale(p, image, stretch) <= stretch,
        stretch <= 0 ==> stretch <= spec_scale(p, image, stretch) <= 0,
{
    lemma_scale_of_ends(image, stretch);
    lemma_scale_is_monotone(0, p, image, stretch);
    lemma_scale_is_monotone(p, image, image, stretch);
}

/// The tiles of an axis lie inside the image: tile `k` starts at pixel
/// `k * tile` and ends where the next one starts, the last one at the end
/// of the image. The part of a whole tile that a tile holds is more than
/// nothing and at most all of it; and where nothing is left over behind the
/// whole tiles, every tile is whole: there is no partial tile.
pub proof fn lemma_tile_lies_in_image(k: int, image: int, tile: int)
    requires
        tile > 0,
        image >= 0,
        0 <= k < spec_tile_count(image, tile),
    ensures
        0 <= k * tile,
        0 < spec_tile_portion(k, image, tile) <= tile,
        k * tile + spec_tile_portion(k, image, tile) <= image,
        k + 1 < spec_tile_count(image, tile) ==> k * tile + spec_tile_portion(k, image, tile) == (k
            + 1) * tile,
        k + 1 == spec_tile_count(image, tile) ==> k * tile + spec_tile_portion(k, image, tile)
            == image,
        image % tile == 0 ==> spec_tile_portion(k, image, tile) == tile && spec_tile_count(
            image,
            tile,
        ) == image / tile,
{
    lemma_fundamental_div_mod(image, tile);
    let n = image / tile;
    assert((k + 1) * tile == k * tile + tile) by (nonlinear_arith);
    if k < n {
        assert((k + 1) * tile <= n * tile) by (nonlinear_arith)
            requires
                k + 1 <= n,
                tile > 0,
        ;
    }
}

/// An extent that is no longer than a tile is one tile.
pub proof fn lemma_small_image_is_one_tile(image: int, tile: int)
    requires
        0 < image <= tile,
    ensures
        spec_tile_count(image, tile) == 1,
        spec_tile_portion(0, image, tile) == image,
{
    lemma_fundamental_div_mod(image, tile);
    let n = image / tile;
    let r = image % tile;
    assert(n == 0 || n == 1) by (nonlinear_arith)
        requires
            image == tile * n + r,
            0 <= r < tile,
            0 < image <= tile,
    ;
}

/// The distance at which position `p` of the image lies.
pub fn scale(p: u32, image: u32, stretch: i32) -> (distance: i32)
    requires
        image > 0,
        p <= image,
    ensures
        distance == spec_scale(p as int, image as int, stretch as int),
{
    proof {
        lemma_scale_is_bounded(p as int, image as int, stretch as int);
    }
    if stretch >= 0 {
        assert(p * stretch <= 0xffff_ffff * 0x7fff_ffff) by (nonlinear_arith)
            requires
                0 <= p <= 0xffff_ffff,
                0 <= stretch <= 0x7fff_ffff,
        ;
        let product: u64 = p as u64 * stretch as u64;
        (product / image as u64) as i32
    } else {
        let size: u64 = (-(stretch as i64)) as u64;
        assert(p * size <= 0xffff_ffff * 0x8000_0000) by (nonlinear_arith)
            requires
                0 <= p <= 0xffff_ffff,
                0 <= size <= 0x8000_0000,
        ;
        let product: u64 = p as u64 * size;
        let up: u64 = (product + (image as u64 - 1)) / image as u64;
        proof {
            let a = product as int;
            let i = image as int;
            lemma_fundamental_div_mod(a + i - 1, i);
            let m = (a + i - 1) % i;
            assert(p * stretch == -a) by (nonlinear_arith)
                requires
                    a == p * size,
                    size == -stretch,
            ;
            assert(i * (-up) == -(i * up)) by (nonlinear_arith);
            lemma_fundamental_div_mod_converse(-a, i, -(up as int), i - 1 - m);
        }
        (-(up as i64)) as i32
    }
}

/// How many tiles an extent of `image` pixels takes. If nothing is left
/// over behind the whole tiles, there is no further tile.
pub fn tile_count(image: u32, tile: u32) -> (count: u64)
    requires
        tile > 0,
    ensures
        count == spec_tile_count(image as int, tile as int),
        image % tile == 0 ==> count == image / tile,
        count <= image,
{
    proof {
        lemma_fundamental_div_mod(image as int, tile as int);
        let n = image as int / tile as int;
        assert(n <= tile * n) by (nonlinear_arith)
            requires
                tile >= 1,
                n >= 0,
        ;
    }
    (image / tile) as u64 + if image % tile != 0 {
        1
    } else {
        0
    }
}

/// How many pixels tile `k` holds along an axis. For a tile of the grid,
/// this divided by the tile size is the part of a whole tile that the tile
/// takes: more than nothing and at most all.
pub fn tile_portion(k: u64, image: u32, tile: u32) -> (portion: u32)
    requires
        tile > 0,
    ensures
        portion == spec_tile_portion(k as int, image as int, tile as int),
        k < spec_tile_count(image as int, tile as int) ==> 0 < portion <= tile,
{
    if k < (image / tile) as u64 {
        tile
    } else {
        image % tile
    }
}

/// The near edge, the far edge before clipping and the stretched size of
/// tile `k` along one axis.
fn tile_span(origin: i32, extent: i32, k: u64, image: u32, tile: u32, stretch: i32) -> (span: (
    i64,
    i64,
    i32,
))
    requires
        tile > 0,
        k < spec_tile_count(image as int, tile as int),
    ensures
        span.0 == spec_tile_min(origin as int, k as int, image as int, tile as int, stretch as int),
        span.1 == spec_tile_max(
            origin as int,
            extent as int,
            k as int,
            image as int,
            tile as int,
            stretch as int,
        ),
        span.2 == spec_tile_stretch(k as int, image as int, tile as int, stretch as int),
{
    proof {
        lemma_tile_lies_in_image(k as int, image as int, tile as int);
    }
    let portion = tile_portion(k, image, tile);
    let first: u64 = k * tile as u64;
    let behind: u64 = first + portion as u64;
    let near = scale(first as u32, image, stretch);
    let far = scale(behind as u32, image, stretch);
    proof {
        lemma_scale_is_bounded(first as int, image as int, stretch as int);
        lemma_scale_is_monotone(first as int, behind as int, image as int, stretch as int);
    }
    let min = origin as i64 + near as i64;
    let max = if stretch < extent {
        origin as i64 + extent as i64
    } else {
        origin as i64 + far as i64
    };
    (min, max, (far as i64 - near as i64) as i32)
}

impl TiledImage {
    /// Checks whether `item_rect` can be cut along the tile grid: the tiles
    /// have a size, and on an axis on which repeats are left to sampling the
    /// image is one tile.
    pub fn fits_grid(&self, item_rect: &LayerRect) -> (fits: bool)
        ensures
            fits == self.spec_fits_grid(*item_rect),
    {
        self.tile_size > 0 && (self.info.stretch_size.width >= item_rect.size.width
            || self.image_size.width <= self.tile_size) && (self.info.stretch_size.height
            >= item_rect.size.height || self.image_size.height <= self.tile_size)
    }
}

/// Adds the primitive that draws the tile at `tile_offset` of the grid,
/// clipped to `item_rect`; nothing if the tile lies outside it. On an axis
/// on which repeats are left to sampling there is only the first tile.
pub fn add_tile_primitive(
    builder: &mut FrameBuilder,
    image: &TiledImage,
    item_rect: &LayerRect,
    tile_offset: TileOffset,
)
    requires
        image.tile_size > 0,
        tile_offset.x < image.spec_columns(),
        tile_offset.y < image.spec_rows(),
        spec_repeats(image.info.stretch_size.width as int, item_rect.size.width as int)
            ==> tile_offset.x == 0,
        spec_repeats(image.info.stretch_size.height as int, item_rect.size.height as int)
            ==> tile_offset.y == 0,
    ensures
        final(builder)@ == old(builder)@.with_primitives(
            image.spec_tile_primitives(*item_rect, tile_offset.x as int, tile_offset.y as int),
        ),
{
    let (min_x, max_x, stretched_width) = tile_span(
        item_rect.origin.x,
        item_rect.size.width,
        tile_offset.x as u64,
        image.image_size.width,
        image.tile_size,
        image.info.stretch_size.width,
    );
    let (min_y, max_y, stretched_height) = tile_span(
        item_rect.origin.y,
        item_rect.size.height,
        tile_offset.y as u64,
        image.image_size.height,
        image.tile_size,
        image.info.stretch_size.height,
    );
    let stretched_size = LayerSize::new(stretched_width, stretched_height);
    let tile_box = LayerBox { min_x, min_y, max_x, max_y };
    proof {
        builder@.lemma_with_primitives(Seq::empty(), Seq::empty());
    }
    if let Some(prim_rect) = tile_box.clip_to(item_rect) {
        builder.add_image(
            image.scroll_layer_id,
            prim_rect,
            &image.clip,
            &stretched_size,
            &image.info.tile_spacing,
            image.info.image_key,
            image.info.image_rendering,
            Some(tile_offset),
        );
    }
}

/// Draws `item_rect` tile by tile.
pub fn decompose_tiled_image(builder: &mut FrameBuilder, image: &TiledImage, item_rect: &LayerRect)
    requires
        image.spec_fits_grid(*item_rect),
    ensures
        final(builder)@ == old(builder)@.with_primitives(
            image.spec_decompose_tiled_image(*item_rect),
        ),
{
    let columns = tile_count(image.image_size.width, image.tile_size);
    let rows = tile_count(image.image_size.height, image.tile_size);
    let mut ty: u64 = 0;
    while ty < rows
        invariant
            image.spec_fits_grid(*item_rect),
            columns == image.spec_columns(),
            rows == image.spec_rows(),
            columns <= u32::MAX,
            rows <= u32::MAX,
            ty <= rows,
            builder@ == old(builder)@.with_primitives(image.spec_tile_rows(*item_rect, ty as nat)),
        decreases rows - ty,
    {
        let mut tx: u64 = 0;
        let ghost before = builder@;
        while tx < columns
            invariant
                image.spec_fits_grid(*item_rect),
                columns == image.spec_columns(),
                rows == image.spec_rows(),
                columns <= u32::MAX,
                rows <= u32::MAX,
                ty < rows,
                tx <= columns,
                builder@ == before.with_primitives(
                    image.spec_tile_row(*item_rect, ty as int, tx as nat),
                ),
            decreases columns - tx,
        {
            proof {
                if 0 < image.image_size.width <= image.tile_size {
                    lemma_small_image_is_one_tile(
                        image.image_size.width as int,
                        image.tile_size as int,
                    );
                }
                if 0 < image.image_size.height <= image.tile_size {
                    lemma_small_image_is_one_tile(
                        image.image_size.height as int,
                        image.tile_size as int,
                    );
                }
            }
            add_tile_primitive(builder, image, item_rect, TileOffset { x: tx as u32, y: ty as u32 });
            proof {
                before.lemma_with_primitives(
                    image.spec_tile_row(*item_rect, ty as int, tx as nat),
                    image.spec_tile_primitives(*item_rect, tx as int, ty as int),
                );
            }
            tx += 1;
        }
        proof {
            old(builder)@.lemma_with_primitives(
                image.spec_tile_rows(*item_rect, ty as nat),
                image.spec_tile_row(*item_rect, ty as int, columns as nat),
            );
        }
        ty += 1;
    }
}

/// Draws one row of repeats.
pub fn decompose_image_row(builder: &mut FrameBuilder, image: &TiledImage, item_rect: &LayerRect)
    requires
        image.tile_size > 0,
        spec_repeats(image.info.stretch_size.height as int, item_rect.size.height as int)
            ==> image.image_size.height <= image.tile_size,
    ensures
        final(builder)@
            == old(builder)@.with_primitives(image.spec_decompose_image_row(*item_rect)),
{
    let no_horizontal_tiling = image.image_size.width <= image.tile_size;
    let no_horizontal_spacing = image.info.tile_spacing.width == 0;
    if no_horizontal_tiling && no_horizontal_spacing {
        decompose_tiled_image(builder, image, item_rect);
        return ;
    }
    let layout_stride: i64 = image.info.stretch_size.width as i64
        + image.info.tile_spacing.width as i64;
    let num_repetitions = repetitions(item_rect.size.width, layout_stride);
    let mut i: i64 = 0;
    let mut offset: i64 = 0;
    while i < num_repetitions
        invariant
            image.tile_size > 0,
            spec_repeats(image.info.stretch_size.height as int, item_rect.size.height as int)
                ==> image.image_size.height <= image.tile_size,
            layout_stride == image.spec_stride_x(),
            num_repetitions == spec_repetitions(item_rect.size.width as int, layout_stride as int),
            0 <= i <= num_repetitions,
            offset == i * layout_stride,
            builder@ == old(builder)@.with_primitives(
                image.spec_columns_repeated(*item_rect, i as nat),
            ),
        decreases num_repetitions - i,
    {
        proof {
            lemma_repeat_begins_inside(i as int, item_rect.size.width as int, layout_stride as int);
            assert((i + 1) * layout_stride == i * layout_stride + layout_stride)
                by (nonlinear_arith);
            old(builder)@.lemma_with_primitives(
                image.spec_columns_repeated(*item_rect, i as nat),
                match image.spec_column_rect(*item_rect, i as int) {
                    Some(rect) => image.spec_decompose_tiled_image(rect),
                    None => Seq::empty(),
                },
            );
        }
        let repeat = LayerBox {
            min_x: item_rect.origin.x as i64 + offset,
            min_y: item_rect.origin.y as i64,
            max_x: item_rect.origin.x as i64 + offset + image.info.stretch_size.width as i64,
            max_y: item_rect.origin.y as i64 + item_rect.size.height as i64,
        };
        if let Some(decomposed_rect) = repeat.clip_to(item_rect) {
            decompose_tiled_image(builder, image, &decomposed_rect);
        }
        i += 1;
        offset += layout_stride;
    }
}

/// Draws an image item whose image is stored in tiles.
pub fn decompose_image(builder: &mut FrameBuilder, image: &TiledImage, item_rect: &LayerRect)
    requires
        image.tile_size > 0,
    ensures
        final(builder)@ == old(builder)@.with_primitives(image.spec_decompose_image(*item_rect)),
{
    let no_vertical_tiling = image.image_size.height <= image.tile_size;
    let no_vertical_spacing = image.info.tile_spacing.height == 0;
    if no_vertical_tiling && no_vertical_spacing {
        decompose_image_row(builder, image, item_rect);
        return ;
    }
    let layout_stride: i64 = image.info.stretch_size.height as i64
        + image.info.tile_spacing.height as i64;
    let num_repetitions = repetitions(item_rect.size.height, layout_stride);
    let mut i: i64 = 0;
    let mut offset: i64 = 0;
    while i < num_repetitions
        invariant
            image.tile_size > 0,
            layout_stride == image.spec_stride_y(),
            num_repetitions == spec_repetitions(item_rect.size.height as int, layout_stride as int),
            0 <= i <= num_repetitions,
            offset == i * layout_stride,
            builder@ == old(builder)@.with_primitives(image.spec_rows_repeated(*item_rect, i as nat)),
        decreases num_repetitions - i,
    {
        proof {
            lemma_repeat_begins_inside(i as int, item_rect.size.height as int, layout_stride as int);
            assert((i + 1) * layout_stride == i * layout_stride + layout_stride)
                by (nonlinear_arith);
            old(builder)@.lemma_with_primitives(
                image.spec_rows_repeated(*item_rect, i as nat),
                match image.spec_row_rect(*item_rect, i as int) {
                    Some(rect) => image.spec_decompose_image_row(rect),
                    None => Seq::empty(),
                },
            );
        }
        let repeat = LayerBox {
            min_x: item_rect.origin.x as i64,
            min_y: item_rect.origin.y as i64 + offset,
            max_x: item_rect.origin.x as i64 + item_rect.size.width as i64,
            max_y: item_rect.origin.y as i64 + offset + image.info.stretch_size.height as i64,
        };
        if let Some(row_rect) = repeat.clip_to(item_rect) {
            decompose_image_row(builder, image, &row_rect);
        }
        i += 1;
        offset += layout_stride;
    }
}

/// One axis of an item's box and of the image that is drawn into it.
pub ghost struct Axis {
    pub origin: int,
    pub extent: int,
    pub image: int,
    pub tile: int,
    pub stretch: int,
}

impl Axis {
    /// The far edge of the box.
    pub open spec fn far(self) -> int {
        clamp_unit(self.origin + self.extent)
    }

    /// Whether `v` lies in the box.
    pub open spec fn holds(self, v: int) -> bool {
        self.origin <= v < self.far()
    }

    pub open spec fn tiles(self) -> int {
        spec_tile_count(self.image, self.tile)
    }

    /// Whether `v` lies in tile `k`, clipped to the box.
    pub open spec fn covers(self, k: int, v: int) -> bool {
        &&& spec_tile_min(self.origin, k, self.image, self.tile, self.stretch) <= v
        &&& v < spec_tile_max(self.origin, self.extent, k, self.image, self.tile, self.stretch)
        &&& self.holds(v)
    }

    /// How many of the first `n` tiles `v` lies in.
    pub open spec fn count(self, n: nat, v: int) -> nat
        decreases n,
    {
        if n == 0 {
            0
        } else {
            self.count((n - 1) as nat, v) + if self.covers(n - 1, v) {
                1nat
            } else {
                0nat
            }
        }
    }

    /// The distance at which the first `n` tiles end.
    pub open spec fn reach(self, n: int) -> int {
        spec_scale(
            if n * self.tile <= self.image {
                n * self.tile
            } else {
                self.image
            },
            self.image,
            self.stretch,
        )
    }

    /// What cutting along the tile grid asks of an axis.
    pub open spec fn fits_grid(self) -> bool {
        &&& i32::MIN <= self.origin <= i32::MAX
        &&& self.tile > 0
        &&& self.image > 0
        &&& spec_repeats(self.stretch, self.extent) ==> self.image <= self.tile
    }

    proof fn lemma_count_of_empty_box(self, n: nat, v: int)
        requires
            self.far() <= self.origin,
        ensures
            self.count(n, v) == 0,
        decreases n,
    {
        if n > 0 {
            self.lemma_count_of_empty_box((n - 1) as nat, v);
        }
    }

    proof fn lemma_reach_grows(self, n: int)
        requires
            self.tile > 0,
            self.image > 0,
            self.stretch >= 0,
            0 <= n,
        ensures
            0 <= self.reach(n) <= self.reach(n + 1),
    {
        assert((n + 1) * self.tile == n * self.tile + self.tile) by (nonlinear_arith);
        let a = if n * self.tile <= self.image {
            n * self.tile
        } else {
            self.image
        };
        let b = if (n + 1) * self.tile <= self.image {
            (n + 1) * self.tile
        } else {
            self.image
        };
        lemma_scale_is_monotone(a, b, self.image, self.stretch);
    }

    proof fn lemma_tile_edges_are_reaches(self, k: int)
        requires
            self.tile > 0,
            self.image > 0,
            0 <= k < self.tiles(),
        ensures
            spec_tile_min(self.origin, k, self.image, self.tile, self.stretch) == self.origin
                + self.reach(k),
            self.origin + spec_scale(
                k * self.tile + spec_tile_portion(k, self.image, self.tile),
                self.image,
                self.stretch,
            ) == self.origin + self.reach(k + 1),
    {
        lemma_tile_lies_in_image(k, self.image, self.tile);
        assert((k + 1) * self.tile == k * self.tile + self.tile) by (nonlinear_arith);
    }

    proof fn lemma_count_up_to_reach(self, n: nat, v: int)
        requires
            self.tile > 0,
            self.image > 0,
            !spec_repeats(self.stretch, self.extent),
            self.stretch >= 0,
            n <= self.tiles(),
        ensures
            self.count(n, v) == if self.holds(v) && v < self.origin + self.reach(n as int) {
                1nat
            } else {
                0nat
            },
        decreases n,
    {
        if n == 0 {
            lemma_scale_of_ends(self.image, self.stretch);
        } else {
            self.lemma_count_up_to_reach((n - 1) as nat, v);
            self.lemma_reach_grows(n - 1);
            self.lemma_tile_edges_are_reaches(n - 1);
        }
    }

    /// Every place of the box lies in one tile, and no place outside it in
    /// any.
    pub proof fn lemma_tiles_partition_box(self, v: int)
        requires
            self.fits_grid(),
        ensures
            self.count(self.tiles() as nat, v) == if self.holds(v) {
                1nat
            } else {
                0nat
            },
    {
        lemma_fundamental_div_mod(self.image, self.tile);
        let n = self.image / self.tile;
        if self.far() <= self.origin {
            self.lemma_count_of_empty_box(self.tiles() as nat, v);
        } else if spec_repeats(self.stretch, self.extent) {
            lemma_small_image_is_one_tile(self.image, self.tile);
            assert(self.count(0, v) == 0);
        } else {
            self.lemma_count_up_to_reach(self.tiles() as nat, v);
            let all = self.tiles();
            assert(all * self.tile >= self.image) by (nonlinear_arith)
                requires
                    self.image == self.tile * n + self.image % self.tile,
                    0 <= self.image % self.tile < self.tile,
                    all == n + if self.image % self.tile != 0 {
                        1int
                    } else {
                        0int
                    },
                    self.tile > 0,
            ;
            lemma_scale_of_ends(self.image, self.stretch);
        }
    }
}

/// The rectangles of `primitives`, in their order.
pub open spec fn spec_rects(primitives: Seq<Primitive>) -> Seq<LayerRect> {
    Seq::new(primitives.len(), |i: int| primitives[i].rect)
}

proof fn lemma_cover_count_of_lists(a: Seq<Primitive>, b: Seq<Primitive>, px: int, py: int)
    ensures
        cover_count(spec_rects(a + b), px, py) == cover_count(spec_rects(a), px, py) + cover_count(
            spec_rects(b),
            px,
            py,
        ),
        cover_count(spec_rects(Seq::<Primitive>::empty()), px, py) == 0,
{
    assert(spec_rects(a + b) =~= spec_rects(a) + spec_rects(b));
    lemma_cover_count_concat(spec_rects(a), spec_rects(b), px, py);
}

impl TiledImage {
    pub open spec fn spec_axis_x(self, item_rect: LayerRect) -> Axis {
        Axis {
            origin: item_rect.origin.x as int,
            extent: item_rect.size.width as int,
            image: self.image_size.width as int,
            tile: self.tile_size as int,
            stretch: self.info.stretch_size.width as int,
        }
    }

    pub open spec fn spec_axis_y(self, item_rect: LayerRect) -> Axis {
        Axis {
            origin: item_rect.origin.y as int,
            extent: item_rect.size.height as int,
            image: self.image_size.height as int,
            tile: self.tile_size as int,
            stretch: self.info.stretch_size.height as int,
        }
    }

    proof fn lemma_tile_cover(self, item_rect: LayerRect, tx: int, ty: int, px: int, py: int)
        ensures
            cover_count(spec_rects(self.spec_tile_primitives(item_rect, tx, ty)), px, py)
                == if self.spec_axis_x(item_rect).covers(tx, px) && self.spec_axis_y(
                item_rect,
            ).covers(ty, py) {
                1nat
            } else {
                0nat
            },
    {
        match self.spec_tile_rect(item_rect, tx, ty) {
            Some(rect) => {
                let p = self.spec_tile_primitive_in(rect, tx, ty);
                assert(spec_rects(seq![p]) =~= Seq::<LayerRect>::empty().push(rect));
                lemma_cover_count_push(Seq::empty(), rect, px, py);
            },
            None => {},
        }
    }

    proof fn lemma_row_cover(self, item_rect: LayerRect, ty: int, columns: nat, px: int, py: int)
        ensures
            cover_count(spec_rects(self.spec_tile_row(item_rect, ty, columns)), px, py)
                == if self.spec_axis_y(item_rect).covers(ty, py) {
                self.spec_axis_x(item_rect).count(columns, px)
            } else {
                0nat
            },
        decreases columns,
    {
        if columns == 0 {
        } else {
            self.lemma_row_cover(item_rect, ty, (columns - 1) as nat, px, py);
            self.lemma_tile_cover(item_rect, columns - 1, ty, px, py);
            lemma_cover_count_of_lists(
                self.spec_tile_row(item_rect, ty, (columns - 1) as nat),
                self.spec_tile_primitives(item_rect, columns - 1, ty),
                px,
                py,
            );
        }
    }

    proof fn lemma_rows_cover(self, item_rect: LayerRect, rows: nat, px: int, py: int)
        ensures
            cover_count(spec_rects(self.spec_tile_rows(item_rect, rows)), px, py)
                == self.spec_axis_y(item_rect).count(rows, py) * self.spec_axis_x(item_rect).count(
                self.spec_columns() as nat,
                px,
            ),
        decreases rows,
    {
        let across = self.spec_axis_x(item_rect).count(self.spec_columns() as nat, px);
        if rows == 0 {
            assert(0 * across == 0);
        } else {
            self.lemma_rows_cover(item_rect, (rows - 1) as nat, px, py);
            self.lemma_row_cover(item_rect, rows - 1, self.spec_columns() as nat, px, py);
            lemma_cover_count_of_lists(
                self.spec_tile_rows(item_rect, (rows - 1) as nat),
                self.spec_tile_row(item_rect, rows - 1, self.spec_columns() as nat),
                px,
                py,
            );
            let down = self.spec_axis_y(item_rect).count((rows - 1) as nat, py);
            assert((down + 1) * across == down * across + across) by (nonlinear_arith);
        }
    }

    /// The tiles that draw a box fill it without gap or overlap: every
    /// unit square of the box lies in the rectangle of exactly one of the
    /// primitives, and no unit square outside the box lies in any.
    pub proof fn lemma_tiles_fill_item_exactly(self, item_rect: LayerRect, px: int, py: int)
        requires
            self.spec_fits_grid(item_rect),
            self.image_size.width > 0,
            self.image_size.height > 0,
        ensures
            cover_count(spec_rects(self.spec_decompose_tiled_image(item_rect)), px, py)
                == if item_rect.contains(px, py) {
                1nat
            } else {
                0nat
            },
    {
        let ax = self.spec_axis_x(item_rect);
        let ay = self.spec_axis_y(item_rect);
        self.lemma_rows_cover(item_rect, self.spec_rows() as nat, px, py);
        ax.lemma_tiles_partition_box(px);
        ay.lemma_tiles_partition_box(py);
        let across = ax.count(self.spec_columns() as nat, px);
        let down = ay.count(self.spec_rows() as nat, py);
        assert(down * across == if down == 1 && across == 1 {
            1int
        } else {
            0int
        }) by (nonlinear_arith)
            requires
                0 <= down <= 1,
                0 <= across <= 1,
        ;
    }

    /// The tile at `(tx, ty)` adds one primitive or none. If the tile and the
    /// box share a unit square, it adds one: its rectangle is what they share,
    /// which is not empty and lies inside the box, under the clip of the item
    /// and with the place of the tile. If they share none, it adds nothing.
    pub proof fn lemma_tile_is_one_clipped_primitive(
        self,
        item_rect: LayerRect,
        tx: int,
        ty: int,
        px: int,
        py: int,
    )
        ensures
            ({
                let ax = self.spec_axis_x(item_rect);
                let ay = self.spec_axis_y(item_rect);
                let in_tile = spec_tile_min(ax.origin, tx, ax.image, ax.tile, ax.stretch) <= px
                    < spec_tile_max(ax.origin, ax.extent, tx, ax.image, ax.tile, ax.stretch)
                    && spec_tile_min(ay.origin, ty, ay.image, ay.tile, ay.stretch) <= py
                    < spec_tile_max(ay.origin, ay.extent, ty, ay.image, ay.tile, ay.stretch);
                match self.spec_tile_rect(item_rect, tx, ty) {
                    Some(rect) => {
                        &&& self.spec_tile_primitives(item_rect, tx, ty) == seq![
                            self.spec_tile_primitive_in(rect, tx, ty),
                        ]
                        &&& self.spec_tile_primitive_in(rect, tx, ty).rect == rect
                        &&& self.spec_tile_primitive_in(rect, tx, ty).clip == self.clip
                        &&& !rect.is_empty()
                        &&& item_rect.min_x() <= rect.min_x() && rect.max_x() <= item_rect.max_x()
                        &&& item_rect.min_y() <= rect.min_y() && rect.max_y() <= item_rect.max_y()
                        &&& rect.contains(px, py) <==> in_tile && item_rect.contains(px, py)
                    },
                    None => {
                        &&& self.spec_tile_primitives(item_rect, tx, ty).len() == 0
                        &&& !(in_tile && item_rect.contains(px, py))
                    },
                }
            }),
    {
        let ax = self.spec_axis_x(item_rect);
        let ay = self.spec_axis_y(item_rect);
        lemma_clip_edges_is_common_part(
            spec_tile_min(ax.origin, tx, ax.image, ax.tile, ax.stretch),
            spec_tile_min(ay.origin, ty, ay.image, ay.tile, ay.stretch),
            spec_tile_max(ax.origin, ax.extent, tx, ax.image, ax.tile, ax.stretch),
            spec_tile_max(ay.origin, ay.extent, ty, ay.image, ay.tile, ay.stretch),
            item_rect,
            px,
            py,
        );
    }

    /// An image that is no larger than a tile and whose repeats touch is
    /// drawn into a box that is not empty with exactly one primitive: the
    /// first tile, with the stretch size of the item, over the whole box. Its
    /// rectangle is the box itself where the box ends inside the range of a
    /// unit, and the part of the box inside that range else.
    pub proof fn lemma_small_image_is_one_primitive(self, item_rect: LayerRect)
        requires
            self.tile_size > 0,
            0 < self.image_size.width <= self.tile_size,
            0 < self.image_size.height <= self.tile_size,
            self.info.tile_spacing.width == 0,
            self.info.tile_spacing.height == 0,
            !item_rect.is_empty(),
        ensures
            item_rect.spec_intersection(item_rect) is Some,
            self.spec_decompose_image(item_rect) == seq![
                Primitive {
                    scroll_layer_id: self.scroll_layer_id,
                    rect: item_rect.spec_intersection(item_rect)->0,
                    clip: self.clip,
                    kind: PrimitiveKind::Image {
                        stretch_size: self.info.stretch_size,
                        tile_spacing: self.info.tile_spacing,
                        image_key: self.info.image_key,
                        image_rendering: self.info.image_rendering,
                        tile_offset: Some(TileOffset { x: 0, y: 0 }),
                    },
                },
            ],
            item_rect.origin.x + item_rect.size.width <= i32::MAX && item_rect.origin.y
                + item_rect.size.height <= i32::MAX ==> item_rect.spec_intersection(item_rect)
                == Some(item_rect),
    {
        let ax = self.spec_axis_x(item_rect);
        let ay = self.spec_axis_y(item_rect);
        ax.lemma_single_tile();
        ay.lemma_single_tile();
        lemma_small_image_is_one_tile(ax.image, ax.tile);
        lemma_small_image_is_one_tile(ay.image, ay.tile);
        lemma_scale_of_ends(ax.image, ax.stretch);
        lemma_scale_of_ends(ay.image, ay.stretch);
        assert(0 * ax.tile == 0);
        assert(self.spec_tile_row(item_rect, 0, 0) =~= Seq::empty());
        assert(self.spec_tile_rows(item_rect, 0) =~= Seq::empty());
        assert(self.spec_tile_rect(item_rect, 0, 0) == item_rect.spec_intersection(item_rect));
        assert(self.spec_tile_row(item_rect, 0, 1) =~= self.spec_tile_primitives(item_rect, 0, 0));
        assert(self.spec_tile_rows(item_rect, 1) =~= self.spec_tile_row(item_rect, 0, 1));
    }
}

impl Axis {
    proof fn lemma_single_tile(self)
        requires
            self.tile > 0,
            0 < self.image <= self.tile,
        ensures
            self.tiles() == 1,
            spec_tile_min(self.origin, 0, self.image, self.tile, self.stretch) == self.origin,
            spec_tile_max(self.origin, self.extent, 0, self.image, self.tile, self.stretch)
                >= self.origin + self.extent,
    {
        lemma_small_image_is_one_tile(self.image, self.tile);
        lemma_scale_of_ends(self.image, self.stretch);
    }
}

/// The repeats that are counted reach to the end of the extent.
proof fn lemma_repeats_reach_the_end(extent: int, stride: int)
    requires
        stride > 0,
    ensures
        spec_repetitions(extent, stride) >= 0,
        extent <= spec_repetitions(extent, stride) * stride,
{
    if extent > 0 {
        lemma_fundamental_div_mod(extent + stride - 1, stride);
        let n = (extent + stride - 1) / stride;
        assert(n * stride == stride * n) by (nonlinear_arith);
    }
}

impl TiledImage {
    /// What drawing an item asks of its image for the item to be filled:
    /// the image is not empty, its repeats touch, and where they are drawn
    /// one by one they have a size.
    pub open spec fn spec_fills(self) -> bool {
        &&& self.tile_size > 0
        &&& self.image_size.width > 0
        &&& self.image_size.height > 0
        &&& self.info.tile_spacing.width == 0
        &&& self.info.tile_spacing.height == 0
        &&& self.image_size.width > self.tile_size ==> self.info.stretch_size.width > 0
        &&& self.image_size.height > self.tile_size ==> self.info.stretch_size.height > 0
    }

    proof fn lemma_columns_fill(self, item_rect: LayerRect, repeats: nat, px: int, py: int)
        requires
            self.spec_fills(),
            self.image_size.width > self.tile_size,
            spec_repeats(self.info.stretch_size.height as int, item_rect.size.height as int)
                ==> self.image_size.height <= self.tile_size,
        ensures
            cover_count(spec_rects(self.spec_columns_repeated(item_rect, repeats)), px, py)
                == if item_rect.contains(px, py) && px < item_rect.origin.x + repeats
                * self.info.stretch_size.width {
                1nat
            } else {
                0nat
            },
        decreases repeats,
    {
        let stretch = self.info.stretch_size.width as int;
        if repeats == 0 {
        } else {
            let i = repeats - 1;
            self.lemma_columns_fill(item_rect, i as nat, px, py);
            assert(repeats * stretch == i * stretch + stretch) by (nonlinear_arith)
                requires
                    repeats == i + 1,
            ;
            let before = self.spec_columns_repeated(item_rect, i as nat);
            let added = match self.spec_column_rect(item_rect, i) {
                Some(rect) => self.spec_decompose_tiled_image(rect),
                None => Seq::empty(),
            };
            lemma_cover_count_of_lists(before, added, px, py);
            match self.spec_column_rect(item_rect, i) {
                Some(rect) => {
                    self.lemma_tiles_fill_item_exactly(rect, px, py);
                },
                None => {},
            }
        }
    }

    /// One row of repeats is filled without gap or overlap.
    pub proof fn lemma_row_fills_item_exactly(self, item_rect: LayerRect, px: int, py: int)
        requires
            self.spec_fills(),
            spec_repeats(self.info.stretch_size.height as int, item_rect.size.height as int)
                ==> self.image_size.height <= self.tile_size,
        ensures
            cover_count(spec_rects(self.spec_decompose_image_row(item_rect)), px, py)
                == if item_rect.contains(px, py) {
                1nat
            } else {
                0nat
            },
    {
        if self.image_size.width <= self.tile_size {
            self.lemma_tiles_fill_item_exactly(item_rect, px, py);
        } else {
            let repeats = spec_repetitions(item_rect.size.width as int, self.spec_stride_x());
            lemma_repeats_reach_the_end(item_rect.size.width as int, self.spec_stride_x());
            self.lemma_columns_fill(item_rect, repeats as nat, px, py);
        }
    }

    proof fn lemma_rows_fill(self, item_rect: LayerRect, repeats: nat, px: int, py: int)
        requires
            self.spec_fills(),
            self.image_size.height > self.tile_size,
        ensures
            cover_count(spec_rects(self.spec_rows_repeated(item_rect, repeats)), px, py)
                == if item_rect.contains(px, py) && py < item_rect.origin.y + repeats
                * self.info.stretch_size.height {
                1nat
            } else {
                0nat
            },
        decreases repeats,
    {
        let stretch = self.info.stretch_size.height as int;
        if repeats == 0 {
        } else {
            let i = repeats - 1;
            self.lemma_rows_fill(item_rect, i as nat, px, py);
            assert(repeats * stretch == i * stretch + stretch) by (nonlinear_arith)
                requires
                    repeats == i + 1,
            ;
            let before = self.spec_rows_repeated(item_rect, i as nat);
            let added = match self.spec_row_rect(item_rect, i) {
                Some(rect) => self.spec_decompose_image_row(rect),
                None => Seq::empty(),
            };
            lemma_cover_count_of_lists(before, added, px, py);
            match self.spec_row_rect(item_rect, i) {
                Some(rect) => {
                    self.lemma_row_fills_item_exactly(rect, px, py);
                },
                None => {},
            }
        }
    }

    /// An image whose repeats touch fills the box of its item without gap
    /// or overlap, however the box is cut into repeats and tiles: every
    /// unit square of the box lies in the rectangle of exactly one of the
    /// primitives, and no unit square outside the box lies in any.
    pub proof fn lemma_image_fills_item_exactly(self, item_rect: LayerRect, px: int, py: int)
        requires
            self.spec_fills(),
        ensures
            cover_count(spec_rects(self.spec_decompose_image(item_rect)), px, py)
                == if item_rect.contains(px, py) {
                1nat
            } else {
                0nat
            },
    {
        if self.image_size.height <= self.tile_size {
            self.lemma_row_fills_item_exactly(item_rect, px, py);
        } else {
            let repeats = spec_repetitions(item_rect.size.height as int, self.spec_stride_y());
            lemma_repeats_reach_the_end(item_rect.size.height as int, self.spec_stride_y());
            self.lemma_rows_fill(item_rect, repeats as nat, px, py);
        }
    }
}

} // verus!
