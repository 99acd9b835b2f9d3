//! How a stacking context is composited: its filters, turned into the
//! passes of the compositor, and its blend mode.

use crate::display_list::{AuxiliaryLists, FilterOp, MixBlendMode, StackingContext};
use crate::frame_builder::{AxisDirection, LowLevelFilterOp};
use crate::geometry::UNITS_PER_PIXEL;
use crate::scene::SceneProperties;
use vstd::prelude::*;

verus! {

/// The passes that one filter takes. A blur takes two, first along x; an
/// opacity that is bound to a property which has no value is full.
pub open spec fn spec_lower_filter(filter: FilterOp, properties: SceneProperties) -> Seq<
    LowLevelFilterOp,
> {
    match filter {
        FilterOp::Blur(radius) => seq![
            LowLevelFilterOp::Blur(radius, AxisDirection::Horizontal),
            LowLevelFilterOp::Blur(radius, AxisDirection::Vertical),
        ],
        FilterOp::Brightness(amount) => seq![LowLevelFilterOp::Brightness(amount)],
        FilterOp::Contrast(amount) => seq![LowLevelFilterOp::Contrast(amount)],
        FilterOp::Grayscale(amount) => seq![LowLevelFilterOp::Grayscale(amount)],
        FilterOp::HueRotate(angle) => seq![LowLevelFilterOp::HueRotate(angle)],
        FilterOp::Invert(amount) => seq![LowLevelFilterOp::Invert(amount)],
        FilterOp::Opacity(binding) => seq![
            LowLevelFilterOp::Opacity(properties.spec_resolve_float(binding, UNITS_PER_PIXEL)),
        ],
        FilterOp::Saturate(amount) => seq![LowLevelFilterOp::Saturate(amount)],
        FilterOp::Sepia(amount) => seq![LowLevelFilterOp::Sepia(amount)],
    }
}

/// The passes that the first `n` of `filters` take, in their order.
pub open spec fn spec_lower_filters(filters: Seq<FilterOp>, properties: SceneProperties, n: nat)
    -> Seq<LowLevelFilterOp>
    decreases n,
{
    if n == 0 {
        Seq::empty()
    } else {
        spec_lower_filters(filters, properties, (n - 1) as nat) + spec_lower_filter(
            filters[n - 1],
            properties,
        )
    }
}

impl StackingContext {
    pub open spec fn spec_mix_blend_mode_for_compositing(self) -> Option<MixBlendMode> {
        match self.mix_blend_mode {
            MixBlendMode::Normal => None,
            mode => Some(mode),
        }
    }

    /// The blend mode, if it is one that blends.
    pub fn mix_blend_mode_for_compositing(&self) -> (mode: Option<MixBlendMode>)
        ensures
            mode == self.spec_mix_blend_mode_for_compositing(),
    {
        match self.mix_blend_mode {
            MixBlendMode::Normal => None,
            _ => Some(self.mix_blend_mode),
        }
    }

    pub open spec fn spec_filter_ops_for_compositing(
        self,
        auxiliary_lists: AuxiliaryLists,
        properties: SceneProperties,
    ) -> Seq<LowLevelFilterOp> {
        spec_lower_filters(
            auxiliary_lists.spec_filters(self.filters),
            properties,
            self.filters.length as nat,
        )
    }

    /// The passes that the filters of the stacking context take.
    pub fn filter_ops_for_compositing(
        &self,
        auxiliary_lists: &AuxiliaryLists,
        properties: &SceneProperties,
    ) -> (filters: Vec<LowLevelFilterOp>)
        requires
            self.filters.spec_fits(auxiliary_lists.filters@.len()),
        ensures
            filters@ == self.spec_filter_ops_for_compositing(*auxiliary_lists, *properties),
    {
        let mut filters: Vec<LowLevelFilterOp> = Vec::new();
        let ghost listed = auxiliary_lists.spec_filters(self.filters);
        let mut i: usize = 0;
        while i < self.filters.length
            invariant
                listed == auxiliary_lists.spec_filters(self.filters),
                self.filters.start + self.filters.length <= auxiliary_lists.filters.len(),
                i <= self.filters.length,
                filters@ == spec_lower_filters(listed, *properties, i as nat),
            decreases self.filters.length - i,
        {
            let filter = auxiliary_lists.filters[self.filters.start + i];
            match filter {
                FilterOp::Blur(radius) => {
                    filters.push(LowLevelFilterOp::Blur(radius, AxisDirection::Horizontal));
                    filters.push(LowLevelFilterOp::Blur(radius, AxisDirection::Vertical));
                },
                FilterOp::Brightness(amount) => {
                    filters.push(LowLevelFilterOp::Brightness(amount));
                },
                FilterOp::Contrast(amount) => {
                    filters.push(LowLevelFilterOp::Contrast(amount));
                },
                FilterOp::Grayscale(amount) => {
                    filters.push(LowLevelFilterOp::Grayscale(amount));
                },
                FilterOp::HueRotate(angle) => {
                    filters.push(LowLevelFilterOp::HueRotate(angle));
                },
                FilterOp::Invert(amount) => {
                    filters.push(LowLevelFilterOp::Invert(amount));
                },
                FilterOp::Opacity(value) => {
                    let amount = properties.resolve_float(&value, UNITS_PER_PIXEL);
                    filters.push(LowLevelFilterOp::Opacity(amount));
                },
                FilterOp::Saturate(amount) => {
                    filters.push(LowLevelFilterOp::Saturate(amount));
                },
                FilterOp::Sepia(amount) => {
                    filters.push(LowLevelFilterOp::Sepia(amount));
                },
            }
            i += 1;
        }
        filters
    }
}

} // verus!
