//! Conway's Game of Life on a toroidal (edge-wrapping) rectangular grid.
//!
//! The engine holds per-cell binary state in a row-major buffer, advances the
//! grid one generation at a time under the classic birth/survival rule, and
//! seeds canonical patterns (four glider orientations and a pulsar) by
//! toggling cells at fixed offsets from an anchor. All coordinate arithmetic
//! wraps modulo the grid dimensions, so the grid has no edges.

pub mod cell;
pub mod grid;
pub mod laws;
pub mod patterns;

pub use cell::Cell;
pub use grid::Universe;
pub use patterns::Glider;
