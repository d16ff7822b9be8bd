//! Verified core of a CPU-side 3D rendering pipeline for an animated
//! procedural solar system.
//!
//! The pipeline's floating-point stages (vertex projection, barycentric
//! rasterization, procedural noise shading) live in the surrounding
//! application; this crate holds the integer logic those stages are built
//! around, with machine-checked contracts: 24-bit color packing, the
//! shader-archetype dispatch table, screen-space bounding-box clamping,
//! triangle index grouping, sphere mesh topology, the deterministic hash
//! behind the starfield, and line rasterization.

pub mod color;
pub mod line;
pub mod mesh;
pub mod raster;
pub mod starfield;
