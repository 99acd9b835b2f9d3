//! Points, sizes and rectangles in layout units, and the exact rectangle
//! arithmetic the rest of the crate builds on.
//!
//! A rectangle is the half-open set of unit squares
//! `[min_x, max_x) x [min_y, max_y)`. Its far edges are the origin plus the
//! size, saturating at the end of the unit range, so that every corner of
//! every rectangle is itself a point; a rectangle whose far edge does not lie
//! beyond its near edge is empty.
//!
//! The overlap of two boxes is computed by the `euclid` crate; all else is
//! done here.

use vstd::prelude::*;

verus! {

/// Layout units in one pixel.
pub const UNITS_PER_PIXEL: i32 = 60;

#[derive(Clone, Copy, Debug, PartialEq, Eq, Structural)]
pub struct LayerPoint {
    pub x: i32,
    pub y: i32,
}

#[derive(Clone, Copy, Debug, PartialEq, Eq, Structural)]
pub struct LayerSize {
    pub width: i32,
    pub height: i32,
}

#[derive(Clone, Copy, Debug, PartialEq, Eq, Structural)]
pub struct LayerRect {
    pub origin: LayerPoint,
    pub size: LayerSize,
}

/// A rectangle given by its four edges, wide enough to hold any sum of an
/// origin and an extent before it is clipped back to a `LayerRect`.
#[derive(Clone, Copy, Debug, PartialEq, Eq, Structural)]
pub struct LayerBox {
    pub min_x: i64,
    pub min_y: i64,
    pub max_x: i64,
    pub max_y: i64,
}

/// `v` limited to the range of a layout unit.
pub open spec fn clamp_unit(v: int) -> int {
    if v < i32::MIN {
        i32::MIN as int
    } else if v > i32::MAX {
        i32::MAX as int
    } else {
        v
    }
}

/// The sum of two layout units, saturating at the ends of the range.
pub fn saturating_unit_add(a: i32, b: i32) -> (sum: i32)
    ensures
        sum == clamp_unit(a + b),
{
    let wide: i64 = a as i64 + b as i64;
    if wide < i32::MIN as i64 {
        i32::MIN
    } else if wide > i32::MAX as i64 {
        i32::MAX
    } else {
        wide as i32
    }
}

/// The part of `rect` that lies between the given edges, or `None` if no
/// unit square of `rect` does.
pub open spec fn spec_clip_edges(min_x: int, min_y: int, max_x: int, max_y: int, rect: LayerRect)
    -> Option<LayerRect> {
    let x0 = if min_x >= rect.min_x() { min_x } else { rect.min_x() };
    let y0 = if min_y >= rect.min_y() { min_y } else { rect.min_y() };
    let x1 = if max_x <= rect.max_x() { max_x } else { rect.max_x() };
    let y1 = if max_y <= rect.max_y() { max_y } else { rect.max_y() };
    if x1 > x0 && y1 > y0 {
        Some(
            LayerRect {
                origin: LayerPoint { x: x0 as i32, y: y0 as i32 },
                size: LayerSize { width: (x1 - x0) as i32, height: (y1 - y0) as i32 },
            },
        )
    } else {
        None
    }
}

/// What is cut out between edges is never empty, lies inside `rect`, and
/// holds exactly the unit squares of `rect` between those edges.
pub proof fn lemma_clip_edges_is_common_part(
    min_x: int,
    min_y: int,
    max_x: int,
    max_y: int,
    rect: LayerRect,
    px: int,
    py: int,
)
    ensures
        match spec_clip_edges(min_x, min_y, max_x, max_y, rect) {
            Some(c) => {
                &&& !c.is_empty()
                &&& c.min_x() >= rect.min_x() && c.max_x() <= rect.max_x()
                &&& c.min_y() >= rect.min_y() && c.max_y() <= rect.max_y()
                &&& c.size.width <= rect.size.width && c.size.height <= rect.size.height
                &&& c.size.width <= max_x - min_x && c.size.height <= max_y - min_y
                &&& c.contains(px, py) <==> min_x <= px < max_x && min_y <= py < max_y
                    && rect.contains(px, py)
            },
            None => !(min_x <= px < max_x && min_y <= py < max_y && rect.contains(px, py)),
        },
{
}

impl LayerPoint {
    pub fn new(x: i32, y: i32) -> (p: LayerPoint)
        ensures
            p == (LayerPoint { x, y }),
    {
        LayerPoint { x, y }
    }

    pub fn zero() -> (p: LayerPoint)
        ensures
            p == (LayerPoint { x: 0, y: 0 }),
    {
        LayerPoint { x: 0, y: 0 }
    }

    /// This point moved by `by`, each coordinate saturating.
    pub open spec fn spec_offset_by(self, by: LayerPoint) -> LayerPoint {
        LayerPoint {
            x: clamp_unit(self.x + by.x) as i32,
            y: clamp_unit(self.y + by.y) as i32,
        }
    }

    pub fn offset_by(&self, by: &LayerPoint) -> (p: LayerPoint)
        ensures
            p == self.spec_offset_by(*by),
    {
        LayerPoint { x: saturating_unit_add(self.x, by.x), y: saturating_unit_add(self.y, by.y) }
    }
}

impl LayerSize {
    pub fn new(width: i32, height: i32) -> (s: LayerSize)
        ensures
            s == (LayerSize { width, height }),
    {
        LayerSize { width, height }
    }

    pub fn zero() -> (s: LayerSize)
        ensures
            s == (LayerSize { width: 0, height: 0 }),
    {
        LayerSize { width: 0, height: 0 }
    }
}

impl LayerBox {
    pub open spec fn contains(self, px: int, py: int) -> bool {
        self.min_x <= px < self.max_x && self.min_y <= py < self.max_y
    }

    pub open spec fn is_empty(self) -> bool {
        !(self.max_x > self.min_x && self.max_y > self.min_y)
    }

    /// The part of this box that lies inside `rect`, or `None` if they share
    /// no unit square.
    pub open spec fn spec_clip_to(self, rect: LayerRect) -> Option<LayerRect> {
        spec_clip_edges(
            self.min_x as int,
            self.min_y as int,
            self.max_x as int,
            self.max_y as int,
            rect,
        )
    }

    /// The box that two boxes have in common, or `None` if they share no
    /// unit square.
    pub open spec fn spec_intersection(self, other: LayerBox) -> Option<LayerBox> {
        let min_x = if self.min_x >= other.min_x { self.min_x } else { other.min_x };
        let min_y = if self.min_y >= other.min_y { self.min_y } else { other.min_y };
        let max_x = if self.max_x <= other.max_x { self.max_x } else { other.max_x };
        let max_y = if self.max_y <= other.max_y { self.max_y } else { other.max_y };
        if max_x > min_x && max_y > min_y {
            Some(LayerBox { min_x, min_y, max_x, max_y })
        } else {
            None
        }
    }

    pub fn clip_to(&self, rect: &LayerRect) -> (clipped: Option<LayerRect>)
        ensures
            clipped == self.spec_clip_to(*rect),
    {
        match intersect_boxes(self, &rect.to_box()) {
            Some(common) => Some(
                LayerRect {
                    origin: LayerPoint { x: common.min_x as i32, y: common.min_y as i32 },
                    size: LayerSize {
                        width: (common.max_x - common.min_x) as i32,
                        height: (common.max_y - common.min_y) as i32,
                    },
                },
            ),
            None => None,
        }
    }
}

/// Calls `euclid::Box2D::intersection` on the two boxes. That function takes
/// the larger of the two near edges and the smaller of the two far edges on
/// each axis, and hands out the box between them if its far edges lie beyond
/// its near edges on both axes; the contract says the same of the result.
#[verifier::external_body]
fn intersect_boxes(a: &LayerBox, b: &LayerBox) -> (common: Option<LayerBox>)
    ensures
        common == a.spec_intersection(*b),
{
    let first = euclid::default::Box2D::new(
        euclid::default::Point2D::new(a.min_x, a.min_y),
        euclid::default::Point2D::new(a.max_x, a.max_y),
    );
    let second = euclid::default::Box2D::new(
        euclid::default::Point2D::new(b.min_x, b.min_y),
        euclid::default::Point2D::new(b.max_x, b.max_y),
    );
    match first.intersection(&second) {
        Some(c) => Some(LayerBox { min_x: c.min.x, min_y: c.min.y, max_x: c.max.x, max_y: c.max.y }),
        None => None,
    }
}

impl LayerRect {
    pub fn new(origin: LayerPoint, size: LayerSize) -> (r: LayerRect)
        ensures
            r == (LayerRect { origin, size }),
    {
        LayerRect { origin, size }
    }

    pub open spec fn min_x(self) -> int {
        self.origin.x as int
    }

    pub open spec fn min_y(self) -> int {
        self.origin.y as int
    }

    pub open spec fn max_x(self) -> int {
        clamp_unit(self.origin.x + self.size.width)
    }

    pub open spec fn max_y(self) -> int {
        clamp_unit(self.origin.y + self.size.height)
    }

    pub open spec fn is_empty(self) -> bool {
        !(self.max_x() > self.min_x() && self.max_y() > self.min_y())
    }

    /// Whether the unit square at `(px, py)` lies in this rectangle.
    pub open spec fn contains(self, px: int, py: int) -> bool {
        self.min_x() <= px < self.max_x() && self.min_y() <= py < self.max_y()
    }

    pub open spec fn spec_to_box(self) -> LayerBox {
        LayerBox {
            min_x: self.min_x() as i64,
            min_y: self.min_y() as i64,
            max_x: self.max_x() as i64,
            max_y: self.max_y() as i64,
        }
    }

    pub fn to_box(&self) -> (b: LayerBox)
        ensures
            b == self.spec_to_box(),
            b.min_x == self.min_x(),
            b.min_y == self.min_y(),
            b.max_x == self.max_x(),
            b.max_y == self.max_y(),
    {
        LayerBox {
            min_x: self.origin.x as i64,
            min_y: self.origin.y as i64,
            max_x: saturating_unit_add(self.origin.x, self.size.width) as i64,
            max_y: saturating_unit_add(self.origin.y, self.size.height) as i64,
        }
    }

    /// The overlap of two rectangles, or `None` if it is empty.
    pub open spec fn spec_intersection(self, other: LayerRect) -> Option<LayerRect> {
        self.spec_to_box().spec_clip_to(other)
    }

    pub fn intersection(&self, other: &LayerRect) -> (overlap: Option<LayerRect>)
        ensures
            overlap == self.spec_intersection(*other),
    {
        self.to_box().clip_to(other)
    }

    /// This rectangle with its origin moved by `by`, saturating.
    pub open spec fn spec_translate(self, by: LayerPoint) -> LayerRect {
        LayerRect { origin: self.origin.spec_offset_by(by), size: self.size }
    }

    pub fn translate(&self, by: &LayerPoint) -> (moved: LayerRect)
        ensures
            moved == self.spec_translate(*by),
    {
        LayerRect { origin: self.origin.offset_by(by), size: self.size }
    }
}

/// An intersection is never empty, and holds exactly the unit squares that
/// lie in both rectangles.
pub proof fn lemma_intersection_is_common_part(a: LayerRect, b: LayerRect, px: int, py: int)
    ensures
        match a.spec_intersection(b) {
            Some(c) => !c.is_empty() && (c.contains(px, py) <==> a.contains(px, py) && b.contains(
                px,
                py,
            )),
            None => !(a.contains(px, py) && b.contains(px, py)),
        },
{
}

/// Intersection does not depend on the order of its operands.
pub proof fn lemma_intersection_commutes(a: LayerRect, b: LayerRect)
    ensures
        a.spec_intersection(b) == b.spec_intersection(a),
{
}

/// How many rectangles of `rects` hold the unit square at `(px, py)`.
pub open spec fn cover_count(rects: Seq<LayerRect>, px: int, py: int) -> nat
    decreases rects.len(),
{
    if rects.len() == 0 {
        0
    } else {
        cover_count(rects.drop_last(), px, py) + if rects.last().contains(px, py) {
            1nat
        } else {
            0nat
        }
    }
}

pub proof fn lemma_cover_count_push(rects: Seq<LayerRect>, r: LayerRect, px: int, py: int)
    ensures
        cover_count(rects.push(r), px, py) == cover_count(rects, px, py) + if r.contains(px, py) {
            1nat
        } else {
            0nat
        },
{
    assert(rects.push(r).drop_last() =~= rects);
}

pub proof fn lemma_cover_count_concat(a: Seq<LayerRect>, b: Seq<LayerRect>, px: int, py: int)
    ensures
        cover_count(a + b, px, py) == cover_count(a, px, py) + cover_count(b, px, py),
    decreases b.len(),
{
    if b.len() == 0 {
    } else {
        lemma_cover_count_concat(a, b.drop_last(), px, py);
        assert((a + b).drop_last() =~= a + b.drop_last());
    }
}

/// The rectangle with the given edges, as a list of one, or the empty list
/// if the edges enclose nothing.
pub open spec fn spec_strip(x0: int, y0: int, x1: int, y1: int) -> Seq<LayerRect> {
    if x1 > x0 && y1 > y0 {
        seq![
            LayerRect {
                origin: LayerPoint { x: x0 as i32, y: y0 as i32 },
                size: LayerSize { width: (x1 - x0) as i32, height: (y1 - y0) as i32 },
            },
        ]
    } else {
        Seq::empty()
    }
}

/// What is left of `rect` once `other` is cut out of it: a strip to the
/// left of the overlap, one above it, one below it and one to its right, in
/// that order, each present only if it is not empty. If the two do not
/// overlap, `rect` itself.
pub open spec fn spec_subtract_rect(rect: LayerRect, other: LayerRect) -> Seq<LayerRect> {
    match rect.spec_intersection(other) {
        Some(overlap) => {
            spec_strip(rect.min_x(), rect.min_y(), overlap.min_x(), rect.max_y()) + spec_strip(
                overlap.min_x(),
                rect.min_y(),
                overlap.max_x(),
                overlap.min_y(),
            ) + spec_strip(overlap.min_x(), overlap.max_y(), overlap.max_x(), rect.max_y())
                + spec_strip(overlap.max_x(), rect.min_y(), rect.max_x(), rect.max_y())
        },
        None => seq![rect],
    }
}

fn push_strip(results: &mut Vec<LayerRect>, x0: i64, y0: i64, x1: i64, y1: i64)
    requires
        i32::MIN <= x0 <= i32::MAX,
        i32::MIN <= y0 <= i32::MAX,
        i32::MIN <= x1 <= i32::MAX,
        i32::MIN <= y1 <= i32::MAX,
        x1 - x0 <= i32::MAX,
        y1 - y0 <= i32::MAX,
    ensures
        final(results)@ == old(results)@ + spec_strip(x0 as int, y0 as int, x1 as int, y1 as int),
{
    if x1 > x0 && y1 > y0 {
        results.push(
            LayerRect {
                origin: LayerPoint { x: x0 as i32, y: y0 as i32 },
                size: LayerSize { width: (x1 - x0) as i32, height: (y1 - y0) as i32 },
            },
        );
    }
}

/// Replaces the contents of `results` with what is left of `rect` once
/// `other` is cut out of it.
pub fn subtract_rect(rect: &LayerRect, other: &LayerRect, results: &mut Vec<LayerRect>)
    ensures
        final(results)@ == spec_subtract_rect(*rect, *other),
{
    results.clear();
    match rect.intersection(other) {
        Some(overlap) => {
            let r = rect.to_box();
            let o = overlap.to_box();
            push_strip(results, r.min_x, r.min_y, o.min_x, r.max_y);
            push_strip(results, o.min_x, r.min_y, o.max_x, o.min_y);
            push_strip(results, o.min_x, o.max_y, o.max_x, r.max_y);
            push_strip(results, o.max_x, r.min_y, r.max_x, r.max_y);
        },
        None => {
            results.push(*rect);
        },
    }
}

/// The pieces left by a subtraction do not overlap one another, and together
/// they hold exactly the unit squares of `rect` that are not in `other`.
pub proof fn lemma_subtract_rect_is_difference(rect: LayerRect, other: LayerRect, px: int, py: int)
    ensures
        cover_count(spec_subtract_rect(rect, other), px, py) == if rect.contains(px, py)
            && !other.contains(px, py) {
            1nat
        } else {
            0nat
        },
{
    match rect.spec_intersection(other) {
        Some(overlap) => {
            let left = spec_strip(rect.min_x(), rect.min_y(), overlap.min_x(), rect.max_y());
            let top = spec_strip(overlap.min_x(), rect.min_y(), overlap.max_x(), overlap.min_y());
            let bottom = spec_strip(
                overlap.min_x(),
                overlap.max_y(),
                overlap.max_x(),
                rect.max_y(),
            );
            let right = spec_strip(overlap.max_x(), rect.min_y(), rect.max_x(), rect.max_y());
            lemma_cover_count_concat(left, top, px, py);
            lemma_cover_count_concat(left + top, bottom, px, py);
            lemma_cover_count_concat(left + top + bottom, right, px, py);
            lemma_cover_count_strip(rect.min_x(), rect.min_y(), overlap.min_x(), rect.max_y(), px, py);
            lemma_cover_count_strip(
                overlap.min_x(),
                rect.min_y(),
                overlap.max_x(),
                overlap.min_y(),
                px,
                py,
            );
            lemma_cover_count_strip(
                overlap.min_x(),
                overlap.max_y(),
                overlap.max_x(),
                rect.max_y(),
                px,
                py,
            );
            lemma_cover_count_strip(overlap.max_x(), rect.min_y(), rect.max_x(), rect.max_y(), px, py);
        },
        None => {
            lemma_cover_count_push(Seq::empty(), rect, px, py);
        },
    }
}

proof fn lemma_cover_count_strip(x0: int, y0: int, x1: int, y1: int, px: int, py: int)
    requires
        i32::MIN <= x0 <= i32::MAX,
        i32::MIN <= y0 <= i32::MAX,
        i32::MIN <= x1 <= i32::MAX,
        i32::MIN <= y1 <= i32::MAX,
        x1 - x0 <= i32::MAX,
        y1 - y0 <= i32::MAX,
    ensures
        cover_count(spec_strip(x0, y0, x1, y1), px, py) == if x0 <= px < x1 && y0 <= py < y1 {
            1nat
        } else {
            0nat
        },
{
    if x1 > x0 && y1 > y0 {
        let r = spec_strip(x0, y0, x1, y1)[0];
        lemma_cover_count_push(Seq::empty(), r, px, py);
    }
}

} // verus!
