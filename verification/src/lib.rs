//! Verified scene-assembly logic for a small real-time renderer: vertex
//! records, mesh construction, instanced rectangles and keyboard tracking.
//!
//! Scalar components are carried as raw IEEE-754 single-precision bit
//! patterns in a `u32`. The library only moves them around and never does
//! arithmetic on them, so every bit pattern (NaN payloads included) passes
//! through unchanged.

pub mod frame;
pub mod gfx_object;
pub mod input;
pub mod loader;
pub mod rectangle_instance;
pub mod rectangle_instance_builder;
pub mod vertex_types;
