//! Flattening of per-pipeline display lists into a primitive list attached to
//! a tree of scroll, clip and reference-frame nodes.
//!
//! A scene holds, for each pipeline, a display list: a flat, depth-first
//! sequence of items in which stacking contexts open and close. `Frame::create`
//! walks the display list of the root pipeline, and of the pipelines that
//! iframes show, and yields what a backend draws: the commands of a
//! `FrameBuilder` in paint order and the nodes of a `ClipScrollTree`.
//!
//! All lengths are fixed-point layout units: sixty to a pixel, held in `i32`.
//! Matrices are known by name only. Every executable function carries a
//! contract stated over the mathematical views of the data it reads and
//! writes; what holds of flattening as a whole is stated as proof functions
//! beside the definitions it speaks of.

pub mod clip;
pub mod clip_scroll_tree;
pub mod compositing;
pub mod display_list;
pub mod flatten;
pub mod frame;
pub mod frame_builder;
pub mod geometry;
pub mod image_tiling;
pub mod resource_cache;
pub mod scene;
pub mod traversal;
