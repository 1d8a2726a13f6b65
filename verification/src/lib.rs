//! Draw-command injection and buffer-arena subsystem for an immediate-mode
//! overlay drawn through a host renderer's fixed binary interface.
//!
//! The library models the host-shared state (growable vertex/index arenas, the
//! fixed-capacity draw-command list, the layer-sorted command index and the
//! texture cache) as plain values and verifies the allocation, packing,
//! padding and ordering rules that the host's format imposes. The thin
//! unverified edge that talks to the real host and to the UI toolkit lives
//! outside this crate and exchanges only plain values with it.

pub mod arena;
pub mod bw_vector;
pub mod coord;
pub mod emit;
pub mod error;
pub mod mesh;
pub mod overlay;
pub mod texture;
