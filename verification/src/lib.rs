//! Approximates a raster image by a mesh of triangles. Vertex positions are
//! fixed-point numbers: one image pixel is [`UNIT`] units wide.

use vstd::prelude::*;

pub mod num;
pub mod vec2;
pub mod triangle;
pub mod pixels;
pub mod color;
pub mod scoring;
pub mod render;
pub mod blocks;
pub mod optimizer;
pub mod scheduler;
pub mod swsrasv;
pub mod config;

verus! {

/// Number of sub-pixel units that make up one image pixel.
pub const UNIT: i64 = 65536;

} // verus!
