//! How an image is broken up into blocks, and how the result is written.

use vstd::prelude::*;

verus! {

/// How an image is broken up before a mesh is laid over it.
#[derive(Debug, Clone, Copy, PartialEq, Eq, Structural)]
pub struct InputConfig {
    /// Width and height in pixels of each block that the image is broken up into.
    pub pixels_per_block: u32,
    /// Number of vertices across each block.
    pub verts_per_block: u32,
}

/// How the result is written. Nothing can be chosen yet.
#[derive(Debug, Clone, Copy, PartialEq, Eq, Structural)]
pub struct OutputConfig {}

} // verus!
