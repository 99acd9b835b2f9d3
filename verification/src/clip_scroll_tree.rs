//! The tree of spatial nodes: reference frames, which open a coordinate
//! space, and clip nodes, which restrict what is visible and may scroll.
//!
//! The tree is an arena. It is emptied and filled again for every frame; the
//! scroll offsets of its nodes are handed out when it is emptied and given
//! back, node by node of the same name, once it has been filled.

use crate::display_list::{ClipRegion, PipelineId, ScrollLayerId, TransformId};
use crate::geometry::{LayerPoint, LayerRect, LayerSize};
use vstd::prelude::*;

verus! {

/// A matrix as flattening resolves it: the identity, or one kept outside.
#[derive(Clone, Copy, Debug, PartialEq, Eq, Structural)]
pub enum ResolvedTransform {
    Identity,
    Matrix(TransformId),
}

/// The matrix of a reference frame, as the product of its factors: a
/// translation by `offset`, a translation by `origin`, then `transform` and
/// `perspective`, each multiplied in before what precedes it.
#[derive(Clone, Copy, Debug, PartialEq, Eq, Structural)]
pub struct ReferenceFrameTransform {
    pub offset: LayerPoint,
    pub origin: LayerPoint,
    pub transform: ResolvedTransform,
    pub perspective: ResolvedTransform,
}

#[derive(Clone, Copy, Debug, PartialEq, Eq, Structural)]
pub enum NodeKind {
    ReferenceFrame(ReferenceFrameTransform),
    Clip { content_size: LayerSize, clip: ClipRegion },
}

#[derive(Clone, Copy, Debug, PartialEq, Eq, Structural)]
pub struct ClipScrollNode {
    pub id: ScrollLayerId,
    pub parent: Option<ScrollLayerId>,
    pub pipeline_id: PipelineId,
    pub local_viewport_rect: LayerRect,
    pub kind: NodeKind,
    pub scroll_offset: LayerPoint,
}

/// The scroll offset that a node of the given name had.
#[derive(Clone, Copy, Debug, PartialEq, Eq, Structural)]
pub struct ScrollLayerState {
    pub id: ScrollLayerId,
    pub scroll_offset: LayerPoint,
}

/// The window, the part of it that content is drawn into, and the number of
/// device pixels to sixty layout pixels, as they were given for a frame.
#[derive(Clone, Copy, Debug, PartialEq, Eq, Structural)]
pub struct ViewportSetup {
    pub window_size: DeviceUintSize,
    pub inner_rect: DeviceUintRect,
    pub device_pixel_ratio: u32,
}

#[derive(Clone, Copy, Debug, PartialEq, Eq, Structural)]
pub struct DeviceUintSize {
    pub width: u32,
    pub height: u32,
}

#[derive(Clone, Copy, Debug, PartialEq, Eq, Structural)]
pub struct DeviceUintPoint {
    pub x: u32,
    pub y: u32,
}

#[derive(Clone, Copy, Debug, PartialEq, Eq, Structural)]
pub struct DeviceUintRect {
    pub origin: DeviceUintPoint,
    pub size: DeviceUintSize,
}

pub struct ClipScrollTree {
    pub nodes: Vec<ClipScrollNode>,
    pub pending_scroll_offsets: Vec<ScrollLayerState>,
    pub pipelines_to_discard: Vec<PipelineId>,
    pub root_reference_frame_id: ScrollLayerId,
    pub topmost_scroll_layer_id: ScrollLayerId,
    pub viewport: Option<ViewportSetup>,
    pub pan: LayerPoint,
}

/// The offset that the first entry of `states` with the name `id` holds.
pub open spec fn spec_find_offset(states: Seq<ScrollLayerState>, id: ScrollLayerId) -> Option<
    LayerPoint,
>
    decreases states.len(),
{
    if states.len() == 0 {
        None
    } else if states[0].id == id {
        Some(states[0].scroll_offset)
    } else {
        spec_find_offset(states.subrange(1, states.len() as int), id)
    }
}

pub fn find_offset(states: &Vec<ScrollLayerState>, id: ScrollLayerId) -> (offset: Option<LayerPoint>)
    ensures
        offset == spec_find_offset(states@, id),
{
    let mut i: usize = 0;
    assert(states@.subrange(0, states.len() as int) =~= states@);
    while i < states.len()
        invariant
            i <= states.len(),
            spec_find_offset(states@, id) == spec_find_offset(
                states@.subrange(i as int, states.len() as int),
                id,
            ),
        decreases states.len() - i,
    {
        let ghost rest = states@.subrange(i as int, states.len() as int);
        assert(rest.subrange(1, rest.len() as int) =~= states@.subrange(
            i + 1,
            states.len() as int,
        ));
        if states[i].id == id {
            return Some(states[i].scroll_offset);
        }
        i += 1;
    }
    None
}

/// Whether `pipeline_id` occurs in `pipelines`.
pub fn contains_pipeline(pipelines: &Vec<PipelineId>, pipeline_id: PipelineId) -> (found: bool)
    ensures
        found == pipelines@.contains(pipeline_id),
{
    let mut i: usize = 0;
    while i < pipelines.len()
        invariant
            i <= pipelines.len(),
            forall|j: int| 0 <= j < i ==> pipelines@[j] != pipeline_id,
        decreases pipelines.len() - i,
    {
        if pipelines[i] == pipeline_id {
            return true;
        }
        i += 1;
    }
    false
}

impl ClipScrollNode {
    /// How far the node's content reaches beyond its viewport, along x and
    /// along y; nothing for a reference frame.
    pub open spec fn spec_scrollable_size(self) -> (int, int) {
        match self.kind {
            NodeKind::Clip { content_size, .. } => (
                content_size.width - self.local_viewport_rect.size.width,
                content_size.height - self.local_viewport_rect.size.height,
            ),
            NodeKind::ReferenceFrame(_) => (0, 0),
        }
    }

    /// The offset that shows `origin` at the top left of the viewport,
    /// limited to what the content allows.
    pub open spec fn spec_clamped_offset(self, origin: LayerPoint) -> LayerPoint {
        let (w, h) = self.spec_scrollable_size();
        LayerPoint { x: spec_clamp_axis(origin.x as int, w) as i32, y: spec_clamp_axis(
            origin.y as int,
            h,
        ) as i32 }
    }

    /// The node after a request to scroll to `origin`: unchanged if its
    /// content does not reach beyond its viewport on either axis.
    pub open spec fn spec_set_scroll_origin(self, origin: LayerPoint) -> ClipScrollNode {
        let (w, h) = self.spec_scrollable_size();
        if w <= 0 && h <= 0 {
            self
        } else {
            ClipScrollNode { scroll_offset: self.spec_clamped_offset(origin), ..self }
        }
    }

    /// Scrolls to `origin` as far as the content allows, and says whether
    /// the offset changed.
    pub fn set_scroll_origin(&mut self, origin: &LayerPoint) -> (changed: bool)
        ensures
            *final(self) == old(self).spec_set_scroll_origin(*origin),
            changed == (final(self).scroll_offset != old(self).scroll_offset),
    {
        let (w, h): (i64, i64) = match self.kind {
            NodeKind::Clip { content_size, .. } => (
                content_size.width as i64 - self.local_viewport_rect.size.width as i64,
                content_size.height as i64 - self.local_viewport_rect.size.height as i64,
            ),
            NodeKind::ReferenceFrame(_) => (0, 0),
        };
        if w <= 0 && h <= 0 {
            return false;
        }
        let new_offset = LayerPoint { x: clamp_axis(origin.x, w), y: clamp_axis(origin.y, h) };
        if new_offset == self.scroll_offset {
            return false;
        }
        self.scroll_offset = new_offset;
        true
    }
}

/// The offset along one axis that shows `origin` at the near edge of the
/// viewport: `-origin`, but no less than `-scrollable` and no more than 0.
pub open spec fn spec_clamp_axis(origin: int, scrollable: int) -> int {
    let wanted = if -origin >= -scrollable {
        -origin
    } else {
        -scrollable
    };
    if wanted <= 0 {
        wanted
    } else {
        0
    }
}

fn clamp_axis(origin: i32, scrollable: i64) -> (offset: i32)
    requires
        -0x1_0000_0000 <= scrollable <= 0x1_0000_0000,
    ensures
        offset == spec_clamp_axis(origin as int, scrollable as int),
{
    let wanted: i64 = if -(origin as i64) >= -scrollable {
        -(origin as i64)
    } else {
        -scrollable
    };
    if wanted <= 0 {
        wanted as i32
    } else {
        0
    }
}

/// The states of the nodes of `nodes` up to `upto` that scroll and whose
/// pipeline is not in `discard`, in the order of the nodes.
pub open spec fn spec_collect_states(
    nodes: Seq<ClipScrollNode>,
    discard: Seq<PipelineId>,
    upto: int,
) -> Seq<ScrollLayerState>
    decreases upto,
{
    if upto <= 0 {
        Seq::empty()
    } else {
        let before = spec_collect_states(nodes, discard, upto - 1);
        let node = nodes[upto - 1];
        if node.kind is Clip && !discard.contains(node.id.spec_pipeline_id()) {
            before.push(ScrollLayerState { id: node.id, scroll_offset: node.scroll_offset })
        } else {
            before
        }
    }
}

/// `node` as it stands in a tree that has just been filled: it takes the
/// offset that a node of its name had in `old_states`, or none; then a
/// pending request for its name, if there is one, scrolls it.
pub open spec fn spec_finalize_node(
    node: ClipScrollNode,
    old_states: Seq<ScrollLayerState>,
    pending: Seq<ScrollLayerState>,
) -> ClipScrollNode {
    let restored = ClipScrollNode {
        scroll_offset: match spec_find_offset(old_states, node.id) {
            Some(offset) => offset,
            None => LayerPoint { x: 0, y: 0 },
        },
        ..node
    };
    match spec_find_offset(pending, node.id) {
        Some(origin) => restored.spec_set_scroll_origin(origin),
        None => restored,
    }
}

/// The nodes of `nodes` with `origin` requested of each node named `id`.
pub open spec fn spec_scroll_nodes(
    nodes: Seq<ClipScrollNode>,
    origin: LayerPoint,
    id: ScrollLayerId,
) -> Seq<ClipScrollNode> {
    Seq::new(
        nodes.len(),
        |i: int|
            if nodes[i].id == id {
                nodes[i].spec_set_scroll_origin(origin)
            } else {
                nodes[i]
            },
    )
}

/// Whether the two arenas hold different nodes at place `i`.
pub open spec fn spec_differ_at(a: Seq<ClipScrollNode>, b: Seq<ClipScrollNode>, i: int) -> bool {
    a[i] != b[i]
}

/// Whether a node of `nodes` has the name `id`.
pub open spec fn spec_has_node(nodes: Seq<ClipScrollNode>, id: ScrollLayerId) -> bool {
    exists|i: int| 0 <= i < nodes.len() && (#[trigger] nodes[i]).id == id
}

impl ClipScrollTree {
    /// The empty tree.
    pub fn new() -> (tree: ClipScrollTree)
        ensures
            tree.nodes@.len() == 0,
            tree.pending_scroll_offsets@.len() == 0,
            tree.pipelines_to_discard@.len() == 0,
            tree.root_reference_frame_id == ScrollLayerId::spec_root_reference_frame(
                PipelineId(0, 0),
            ),
            tree.topmost_scroll_layer_id == ScrollLayerId::spec_root_scroll_layer(PipelineId(0, 0)),
            tree.viewport is None,
            tree.pan == (LayerPoint { x: 0, y: 0 }),
    {
        let dummy_pipeline = PipelineId(0, 0);
        ClipScrollTree {
            nodes: Vec::new(),
            pending_scroll_offsets: Vec::new(),
            pipelines_to_discard: Vec::new(),
            root_reference_frame_id: ScrollLayerId::root_reference_frame(dummy_pipeline),
            topmost_scroll_layer_id: ScrollLayerId::root_scroll_layer(dummy_pipeline),
            viewport: None,
            pan: LayerPoint::zero(),
        }
    }

    pub fn root_reference_frame_id(&self) -> (id: ScrollLayerId)
        ensures
            id == self.root_reference_frame_id,
    {
        self.root_reference_frame_id
    }

    pub fn topmost_scroll_layer_id(&self) -> (id: ScrollLayerId)
        ensures
            id == self.topmost_scroll_layer_id,
    {
        self.topmost_scroll_layer_id
    }

    /// The name that the next reference frame of `pipeline_id` gets: its
    /// number is the place that its node takes in the arena.
    pub open spec fn spec_next_reference_frame_id(&self, pipeline_id: PipelineId) -> ScrollLayerId {
        ScrollLayerId::ReferenceFrame(self.nodes@.len() as u64, pipeline_id)
    }

    /// The node of a reference frame with the given matrix.
    pub open spec fn spec_reference_frame_node(
        &self,
        rect: LayerRect,
        transform: ReferenceFrameTransform,
        pipeline_id: PipelineId,
        parent_id: Option<ScrollLayerId>,
    ) -> ClipScrollNode {
        ClipScrollNode {
            id: self.spec_next_reference_frame_id(pipeline_id),
            parent: parent_id,
            pipeline_id,
            local_viewport_rect: rect,
            kind: NodeKind::ReferenceFrame(transform),
            scroll_offset: LayerPoint { x: 0, y: 0 },
        }
    }

    /// Adds a reference frame below `parent_id` and hands out its name.
    pub fn add_reference_frame(
        &mut self,
        rect: &LayerRect,
        transform: &ReferenceFrameTransform,
        pipeline_id: PipelineId,
        parent_id: Option<ScrollLayerId>,
    ) -> (id: ScrollLayerId)
        ensures
            id == old(self).spec_next_reference_frame_id(pipeline_id),
            final(self).nodes@ == old(self).nodes@.push(
                old(self).spec_reference_frame_node(*rect, *transform, pipeline_id, parent_id),
            ),
            final(self).pending_scroll_offsets == old(self).pending_scroll_offsets,
            final(self).pipelines_to_discard == old(self).pipelines_to_discard,
            final(self).root_reference_frame_id == old(self).root_reference_frame_id,
            final(self).topmost_scroll_layer_id == old(self).topmost_scroll_layer_id,
            final(self).viewport == old(self).viewport,
            final(self).pan == old(self).pan,
    {
        let id = ScrollLayerId::ReferenceFrame(self.nodes.len() as u64, pipeline_id);
        self.nodes.push(
            ClipScrollNode {
                id,
                parent: parent_id,
                pipeline_id,
                local_viewport_rect: *rect,
                kind: NodeKind::ReferenceFrame(*transform),
                scroll_offset: LayerPoint::zero(),
            },
        );
        id
    }

    /// Adds `node` to the arena.
    pub fn add_node(&mut self, node: ClipScrollNode)
        ensures
            final(self).nodes@ == old(self).nodes@.push(node),
            final(self).pending_scroll_offsets == old(self).pending_scroll_offsets,
            final(self).pipelines_to_discard == old(self).pipelines_to_discard,
            final(self).root_reference_frame_id == old(self).root_reference_frame_id,
            final(self).topmost_scroll_layer_id == old(self).topmost_scroll_layer_id,
            final(self).viewport == old(self).viewport,
            final(self).pan == old(self).pan,
    {
        self.nodes.push(node);
    }

    /// Empties the arena and hands out the scroll offsets that its clip
    /// nodes had, but for the pipelines whose state was to be discarded.
    pub fn drain(&mut self) -> (states: Vec<ScrollLayerState>)
        ensures
            states@ == spec_collect_states(
                old(self).nodes@,
                old(self).pipelines_to_discard@,
                old(self).nodes@.len() as int,
            ),
            final(self).nodes@.len() == 0,
            final(self).pipelines_to_discard@.len() == 0,
            final(self).pending_scroll_offsets == old(self).pending_scroll_offsets,
            final(self).root_reference_frame_id == old(self).root_reference_frame_id,
            final(self).topmost_scroll_layer_id == old(self).topmost_scroll_layer_id,
            final(self).viewport == old(self).viewport,
            final(self).pan == old(self).pan,
    {
        let mut states: Vec<ScrollLayerState> = Vec::new();
        let mut i: usize = 0;
        while i < self.nodes.len()
            invariant
                i <= self.nodes.len(),
                *self == *old(self),
                states@ == spec_collect_states(self.nodes@, self.pipelines_to_discard@, i as int),
            decreases self.nodes.len() - i,
        {
            let node = self.nodes[i];
            let scrolls = match node.kind {
                NodeKind::Clip { .. } => true,
                NodeKind::ReferenceFrame(_) => false,
            };
            if scrolls && !contains_pipeline(&self.pipelines_to_discard, node.id.pipeline_id()) {
                states.push(ScrollLayerState { id: node.id, scroll_offset: node.scroll_offset });
            }
            i += 1;
        }
        self.nodes.clear();
        self.pipelines_to_discard.clear();
        states
    }

    /// The scroll offsets of the clip nodes, in the order of the arena.
    pub fn get_scroll_node_state(&self) -> (states: Vec<ScrollLayerState>)
        ensures
            states@ == spec_collect_states(self.nodes@, Seq::empty(), self.nodes@.len() as int),
    {
        let mut states: Vec<ScrollLayerState> = Vec::new();
        let mut i: usize = 0;
        while i < self.nodes.len()
            invariant
                i <= self.nodes.len(),
                states@ == spec_collect_states(self.nodes@, Seq::empty(), i as int),
            decreases self.nodes.len() - i,
        {
            let node = self.nodes[i];
            match node.kind {
                NodeKind::Clip { .. } => {
                    states.push(ScrollLayerState { id: node.id, scroll_offset: node.scroll_offset });
                },
                NodeKind::ReferenceFrame(_) => {},
            }
            i += 1;
        }
        states
    }

    /// Marks the scroll offsets of `pipeline_id` as not to be kept when the
    /// arena is next emptied.
    pub fn discard_frame_state_for_pipeline(&mut self, pipeline_id: PipelineId)
        ensures
            final(self).pipelines_to_discard@ == old(self).pipelines_to_discard@.push(pipeline_id),
            final(self).nodes == old(self).nodes,
            final(self).pending_scroll_offsets == old(self).pending_scroll_offsets,
            final(self).root_reference_frame_id == old(self).root_reference_frame_id,
            final(self).topmost_scroll_layer_id == old(self).topmost_scroll_layer_id,
            final(self).viewport == old(self).viewport,
            final(self).pan == old(self).pan,
    {
        self.pipelines_to_discard.push(pipeline_id);
    }

    /// Requests that the nodes named `id` scroll to `origin`, and says
    /// whether any of them moved. A reference frame does not scroll. If no
    /// node has that name, the request is kept for the next filling.
    pub fn scroll_nodes(&mut self, origin: LayerPoint, id: ScrollLayerId) -> (changed: bool)
        ensures
            final(self).pipelines_to_discard == old(self).pipelines_to_discard,
            final(self).root_reference_frame_id == old(self).root_reference_frame_id,
            final(self).topmost_scroll_layer_id == old(self).topmost_scroll_layer_id,
            final(self).viewport == old(self).viewport,
            final(self).pan == old(self).pan,
            id is ReferenceFrame ==> !changed && final(self).nodes@ == old(self).nodes@
                && final(self).pending_scroll_offsets@ == old(self).pending_scroll_offsets@,
            !(id is ReferenceFrame) ==> {
                &&& final(self).nodes@ == spec_scroll_nodes(old(self).nodes@, origin, id)
                &&& changed == (final(self).nodes@ != old(self).nodes@)
                &&& final(self).pending_scroll_offsets@ == if spec_has_node(old(self).nodes@, id) {
                    old(self).pending_scroll_offsets@
                } else {
                    seq![ScrollLayerState { id, scroll_offset: origin }]
                        + old(self).pending_scroll_offsets@
                }
            },
    {
        if id.is_reference_frame() {
            return false;
        }
        let mut scrolled_a_node = false;
        let mut found_node = false;
        let mut i: usize = 0;
        while i < self.nodes.len()
            invariant
                i <= self.nodes.len(),
                self.nodes@.len() == old(self).nodes@.len(),
                self.pending_scroll_offsets == old(self).pending_scroll_offsets,
                self.pipelines_to_discard == old(self).pipelines_to_discard,
                self.root_reference_frame_id == old(self).root_reference_frame_id,
                self.topmost_scroll_layer_id == old(self).topmost_scroll_layer_id,
                self.viewport == old(self).viewport,
                self.pan == old(self).pan,
                forall|j: int|
                    0 <= j < i ==> self.nodes@[j]
                        == spec_scroll_nodes(old(self).nodes@, origin, id)[j],
                forall|j: int| i <= j < self.nodes@.len() ==> self.nodes@[j] == old(self).nodes@[j],
                found_node == (exists|j: int| 0 <= j < i && (#[trigger] old(self).nodes@[j]).id
                    == id),
                scrolled_a_node == (exists|j: int|
                    0 <= j < i && #[trigger] spec_differ_at(self.nodes@, old(self).nodes@, j)),
            decreases self.nodes.len() - i,
        {
            let mut node = self.nodes[i];
            let ghost before = self.nodes@;
            if node.id == id {
                found_node = true;
                let moved = node.set_scroll_origin(&origin);
                self.nodes.set(i, node);
                if moved {
                    scrolled_a_node = true;
                    assert(spec_differ_at(self.nodes@, old(self).nodes@, i as int));
                } else {
                    assert(self.nodes@ =~= before);
                }
            }
            i += 1;
        }
        if scrolled_a_node {
        } else {
            assert forall|j: int| 0 <= j < self.nodes@.len() implies self.nodes@[j]
                == old(self).nodes@[j] by {
                assert(!spec_differ_at(self.nodes@, old(self).nodes@, j));
            }
            assert(self.nodes@ =~= old(self).nodes@);
        }
        if !found_node {
            self.pending_scroll_offsets.insert(0, ScrollLayerState { id, scroll_offset: origin });
        }
        scrolled_a_node
    }

    /// Gives the nodes of a tree that has just been filled the offsets that
    /// nodes of their names had before, applies the pending scroll requests
    /// to them, and forgets those requests.
    pub fn finalize_and_apply_pending_scroll_offsets(&mut self, old_states: Vec<ScrollLayerState>)
        ensures
            final(self).nodes@.len() == old(self).nodes@.len(),
            forall|i: int|
                0 <= i < old(self).nodes@.len() ==> #[trigger] final(self).nodes@[i]
                    == spec_finalize_node(
                    old(self).nodes@[i],
                    old_states@,
                    old(self).pending_scroll_offsets@,
                ),
            final(self).pending_scroll_offsets@.len() == 0,
            final(self).pipelines_to_discard == old(self).pipelines_to_discard,
            final(self).root_reference_frame_id == old(self).root_reference_frame_id,
            final(self).topmost_scroll_layer_id == old(self).topmost_scroll_layer_id,
            final(self).viewport == old(self).viewport,
            final(self).pan == old(self).pan,
    {
        let mut i: usize = 0;
        while i < self.nodes.len()
            invariant
                i <= self.nodes.len(),
                self.nodes@.len() == old(self).nodes@.len(),
                self.pending_scroll_offsets == old(self).pending_scroll_offsets,
                self.pipelines_to_discard == old(self).pipelines_to_discard,
                self.root_reference_frame_id == old(self).root_reference_frame_id,
                self.topmost_scroll_layer_id == old(self).topmost_scroll_layer_id,
                self.viewport == old(self).viewport,
                self.pan == old(self).pan,
                forall|j: int|
                    0 <= j < i ==> #[trigger] self.nodes@[j] == spec_finalize_node(
                        old(self).nodes@[j],
                        old_states@,
                        old(self).pending_scroll_offsets@,
                    ),
                forall|j: int| i <= j < self.nodes@.len() ==> self.nodes@[j] == old(self).nodes@[j],
            decreases self.nodes.len() - i,
        {
            let mut node = self.nodes[i];
            node.scroll_offset = match find_offset(&old_states, node.id) {
                Some(offset) => offset,
                None => LayerPoint::zero(),
            };
            match find_offset(&self.pending_scroll_offsets, node.id) {
                Some(origin) => {
                    let _ = node.set_scroll_origin(&origin);
                },
                None => {},
            }
            self.nodes.set(i, node);
            i += 1;
        }
        self.pending_scroll_offsets.clear();
    }

    /// Notes the pan that the transforms of the nodes are to be computed
    /// for.
    pub fn update_all_node_transforms(&mut self, pan: LayerPoint)
        ensures
            final(self).pan == pan,
            final(self).nodes == old(self).nodes,
            final(self).pending_scroll_offsets == old(self).pending_scroll_offsets,
            final(self).pipelines_to_discard == old(self).pipelines_to_discard,
            final(self).root_reference_frame_id == old(self).root_reference_frame_id,
            final(self).topmost_scroll_layer_id == old(self).topmost_scroll_layer_id,
            final(self).viewport == old(self).viewport,
    {
        self.pan = pan;
    }
}

} // verus!
