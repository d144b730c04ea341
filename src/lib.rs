//! Tessellation of parametric surfaces into triangle meshes.
//!
//! The library owns the discrete side of the work: the parameter grid and its
//! limits (`grid`), the row-major traversal that evaluates a surface at every
//! node or cell, the shared-vertex index buffer and the flat quad-list layout
//! (`mesh`), the colormap palette table (`colormap`), the checked settings and
//! the catalog of surfaces (`surface`), and the cube's fixed vertex data
//! (`cube`). The surface functions themselves, finite-difference normals and
//! color interpolation are floating-point code, supplied by the caller as the
//! closures that the sampling functions evaluate.

use vstd::prelude::*;

pub mod colormap;
pub mod cube;
pub mod error;
pub mod grid;
pub mod mesh;
pub mod surface;

verus! {

} // verus!
