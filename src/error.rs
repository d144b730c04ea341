use vstd::prelude::*;

verus! {

/// Why a surface description was rejected before any tessellation began.
#[derive(Clone, Copy, Debug, PartialEq, Eq, Structural)]
pub enum ConfigError {
    /// `u_segments` or `v_segments` is zero.
    ZeroSegments,
    /// The grid has more nodes than a 32-bit index buffer can address,
    /// or its index buffer would not fit in memory.
    GridTooLarge,
    /// The colormap name is not one of the palettes in the table.
    UnknownColormap,
    /// The colormap axis is not one of "x", "y" or "z".
    UnknownAxis,
    /// The scale or aspect factor is negative, infinite or NaN.
    NonFiniteScale,
    /// A parameter range is empty or reversed where the surface needs an area.
    DegenerateRange,
    /// A grid of points has fewer rows, or a row fewer points, than stated.
    PointGridMismatch,
}

} // verus!
