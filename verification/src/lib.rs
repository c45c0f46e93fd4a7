//! A software 3D rasterization pipeline over exact fixed-point arithmetic.
//!
//! The crate covers the classic stages of a scanline renderer: linear
//! interpolation of per-edge quantities, 2D primitive rasterization (lines,
//! filled, shaded and depth-tested triangles), a homogeneous transform stack
//! with instances and a camera, frustum clipping of triangles against the
//! near and side planes, projection to canvas coordinates, backface culling,
//! and a depth-buffered compositor.
//!
//! Scalars that are conceptually real numbers (coordinates, colors, depths)
//! are represented in fixed point with `fx::FP` units per 1.0, so that every
//! arithmetic step has an exact, machine-checked contract.

pub mod fx;
pub mod interp;
pub mod raster;
pub mod matrix;
pub mod clip;
pub mod scene;
pub mod triangles;
pub mod canvas;
pub mod render;
pub mod halton;
