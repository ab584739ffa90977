//! Geometric core of a hex-grid rail-track editor.
//!
//! A pointer hovers and clicks hexagon edges to toggle rail connections;
//! the core maps pixel positions to hex cells and edges, stores per-cell
//! connection state with shared edges resolved to one canonical slot, and
//! derives the rail shapes (dots, straights, bends, and ghost previews)
//! that depict the resulting track. Pixel positions enter as exact
//! fixed-point values; the surrounding presentation layer owns event
//! wiring and drawing.

pub mod fixed;
pub mod grid;
pub mod hex;
pub mod hit;
pub mod render;
pub mod state;
