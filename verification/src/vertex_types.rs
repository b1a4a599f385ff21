//! Vertex records as they are laid out for the GPU, one array per attribute.

use vstd::prelude::*;

verus! {

/// The bit pattern of positive zero.
pub const ZERO: u32 = 0;

/// A bare position.
#[derive(Debug, Clone, Copy, PartialEq, Eq)]
pub struct Vertex3D {
    pub position: [u32; 3],
}

/// A position with the surface normal at that point.
#[derive(Debug, Clone, Copy, PartialEq, Eq)]
pub struct Vertex3DNormal3D {
    pub position: [u32; 3],
    pub normal: [u32; 3],
}

/// Per-instance data: where the instance sits and its colour.
#[derive(Debug, Clone, Copy, PartialEq, Eq)]
pub struct Vertex3DColor3D {
    pub instance_position: [u32; 3],
    pub instance_color: [u32; 3],
}

} // verus!
