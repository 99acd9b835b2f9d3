//! The part of a primitive that its clip region leaves whole.

use crate::display_list::{AuxiliaryLists, ClipRegion, ComplexClipRegion};
use crate::geometry::{spec_clip_edges, LayerBox, LayerRect};
use vstd::prelude::*;

verus! {

/// The larger of two lengths.
pub open spec fn spec_longer(a: int, b: int) -> int {
    if a >= b {
        a
    } else {
        b
    }
}

fn longer(a: i32, b: i32) -> (l: i64)
    ensures
        l == spec_longer(a as int, b as int),
{
    if a >= b {
        a as i64
    } else {
        b as i64
    }
}

impl ComplexClipRegion {
    /// The four edges of the inner box: the rectangle, drawn in on each
    /// side by the longer of the two radii that meet that side.
    pub open spec fn spec_inner_min_x(self) -> int {
        self.rect.min_x() + spec_longer(
            self.radii.top_left.width as int,
            self.radii.bottom_left.width as int,
        )
    }

    pub open spec fn spec_inner_max_x(self) -> int {
        self.rect.max_x() - spec_longer(
            self.radii.top_right.width as int,
            self.radii.bottom_right.width as int,
        )
    }

    pub open spec fn spec_inner_min_y(self) -> int {
        self.rect.min_y() + spec_longer(
            self.radii.top_left.height as int,
            self.radii.top_right.height as int,
        )
    }

    pub open spec fn spec_inner_max_y(self) -> int {
        self.rect.max_y() - spec_longer(
            self.radii.bottom_left.height as int,
            self.radii.bottom_right.height as int,
        )
    }

    /// Whether the corners leave a box between them.
    pub open spec fn spec_has_inner_rect(self) -> bool {
        self.spec_inner_min_x() <= self.spec_inner_max_x() && self.spec_inner_min_y()
            <= self.spec_inner_max_y()
    }

    /// Whether the unit square at `(px, py)` lies in the inner box.
    pub open spec fn spec_inner_contains(self, px: int, py: int) -> bool {
        &&& self.spec_inner_min_x() <= px < self.spec_inner_max_x()
        &&& self.spec_inner_min_y() <= py < self.spec_inner_max_y()
    }

    /// The largest box inside the rounded rectangle that no corner cuts
    /// into, if the corners leave one.
    pub fn get_inner_rect(&self) -> (inner: Option<LayerBox>)
        ensures
            inner is Some == self.spec_has_inner_rect(),
            inner matches Some(b) ==> {
                &&& b.min_x == self.spec_inner_min_x()
                &&& b.max_x == self.spec_inner_max_x()
                &&& b.min_y == self.spec_inner_min_y()
                &&& b.max_y == self.spec_inner_max_y()
            },
    {
        let outer = self.rect.to_box();
        let xl = outer.min_x + longer(self.radii.top_left.width, self.radii.bottom_left.width);
        let xr = outer.max_x - longer(self.radii.top_right.width, self.radii.bottom_right.width);
        let yt = outer.min_y + longer(self.radii.top_left.height, self.radii.top_right.height);
        let yb = outer.max_y - longer(self.radii.bottom_left.height, self.radii.bottom_right.height);
        if xl <= xr && yt <= yb {
            Some(LayerBox { min_x: xl, min_y: yt, max_x: xr, max_y: yb })
        } else {
            None
        }
    }

    /// What is left of `combined` inside the inner box of this clip.
    pub open spec fn spec_narrow(self, combined: Option<LayerRect>) -> Option<LayerRect> {
        match combined {
            Some(rect) => if self.spec_has_inner_rect() {
                spec_clip_edges(
                    self.spec_inner_min_x(),
                    self.spec_inner_min_y(),
                    self.spec_inner_max_x(),
                    self.spec_inner_max_y(),
                    rect,
                )
            } else {
                None
            },
            None => None,
        }
    }
}

/// `base` narrowed by the first `n` of `clips`, one after the other.
pub open spec fn spec_narrow_by(base: Option<LayerRect>, clips: Seq<ComplexClipRegion>, n: nat)
    -> Option<LayerRect>
    decreases n,
{
    if n == 0 {
        base
    } else {
        clips[n - 1].spec_narrow(spec_narrow_by(base, clips, (n - 1) as nat))
    }
}

/// The rectangle that `original_rect`, the main rectangle of `region` and
/// the inner boxes of all of `clips` have in common; `None` if there is no
/// such rectangle, or if an image masks the region.
pub open spec fn spec_clip_intersection(
    original_rect: LayerRect,
    region: ClipRegion,
    clips: Seq<ComplexClipRegion>,
) -> Option<LayerRect> {
    if region.image_mask is Some {
        None
    } else {
        spec_narrow_by(region.main.spec_intersection(original_rect), clips, clips.len())
    }
}

/// Computes the part of `original_rect` that the clip region `region`
/// leaves whole, where the rounded clips of the region are in `aux_lists`.
pub fn clip_intersection(
    original_rect: &LayerRect,
    region: &ClipRegion,
    aux_lists: &AuxiliaryLists,
) -> (inner: Option<LayerRect>)
    requires
        region.image_mask is None ==> region.complex.spec_fits(
            aux_lists.complex_clip_regions@.len(),
        ),
    ensures
        inner == spec_clip_intersection(
            *original_rect,
            *region,
            aux_lists.spec_complex_clip_regions(region.complex),
        ),
{
    if region.image_mask.is_some() {
        return None;
    }
    let ghost clips = aux_lists.spec_complex_clip_regions(region.complex);
    let base_rect = region.main.intersection(original_rect);
    let mut combined = base_rect;
    let mut i: usize = 0;
    while i < region.complex.length
        invariant
            region.complex.spec_fits(aux_lists.complex_clip_regions@.len()),
            clips == aux_lists.spec_complex_clip_regions(region.complex),
            i <= region.complex.length,
            region.complex.start + region.complex.length <= aux_lists.complex_clip_regions.len(),
            combined == spec_narrow_by(base_rect, clips, i as nat),
        decreases region.complex.length - i,
    {
        let ccr = &aux_lists.complex_clip_regions[region.complex.start + i];
        combined =
        match combined {
            Some(rect) => match ccr.get_inner_rect() {
                Some(inner) => inner.clip_to(&rect),
                None => None,
            },
            None => None,
        };
        i += 1;
    }
    combined
}

/// Narrowing by rounded clips leaves exactly what lies in all the inner
/// boxes.
pub proof fn lemma_narrow_by_is_common_part(
    base: Option<LayerRect>,
    clips: Seq<ComplexClipRegion>,
    n: nat,
    px: int,
    py: int,
)
    requires
        n <= clips.len(),
    ensures
        match spec_narrow_by(base, clips, n) {
            Some(rect) => base is Some && (rect.contains(px, py) <==> base->0.contains(px, py)
                && forall|i: int| 0 <= i < n ==> (#[trigger] clips[i]).spec_inner_contains(px, py)),
            None => base matches Some(b) ==> !(b.contains(px, py) && forall|i: int|
                0 <= i < n ==> (#[trigger] clips[i]).spec_inner_contains(px, py)),
        },
    decreases n,
{
    if n > 0 {
        lemma_narrow_by_is_common_part(base, clips, (n - 1) as nat, px, py);
    }
}

/// What a clip region without an image mask leaves of a rectangle is the
/// set of unit squares that lie in the rectangle, in the main rectangle of
/// the region and in the inner box of each of its rounded clips; if there
/// is no such unit square, nothing is left.
pub proof fn lemma_clip_intersection_is_common_part(
    original_rect: LayerRect,
    region: ClipRegion,
    clips: Seq<ComplexClipRegion>,
    px: int,
    py: int,
)
    requires
        region.image_mask is None,
    ensures
        ({
            let common = original_rect.contains(px, py) && region.main.contains(px, py)
                && forall|i: int|
                0 <= i < clips.len() ==> (#[trigger] clips[i]).spec_inner_contains(px, py);
            match spec_clip_intersection(original_rect, region, clips) {
                Some(rect) => rect.contains(px, py) <==> common,
                None => !common,
            }
        }),
{
    lemma_narrow_by_is_common_part(
        region.main.spec_intersection(original_rect),
        clips,
        clips.len(),
        px,
        py,
    );
}

} // verus!
