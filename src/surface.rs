use vstd::prelude::*;
use crate::colormap::{Palette, palette_named};
use crate::error::ConfigError;
use crate::grid::{Grid, index_count, node_count};
use crate::mesh::Shading;
use vstd::string::StringSliceAdditionalSpecFns;
use vstd::utf8::{encode_utf8, encode_utf8_decode_utf8, is_ascii_chars, is_ascii_chars_encode_utf8};

verus! {

/// The coordinate whose value drives the colormap.
#[derive(Clone, Copy, Debug, PartialEq, Eq, Structural)]
pub enum ColorAxis {
    X,
    Y,
    Z,
}

/// The name of an axis: "x", "y" or "z".
pub open spec fn axis_name(a: ColorAxis) -> Seq<char> {
    match a {
        ColorAxis::X => seq!['x'],
        ColorAxis::Y => seq!['y'],
        ColorAxis::Z => seq!['z'],
    }
}

/// The axis that `name` selects: "x", "y" or "z".
pub open spec fn axis_named(name: Seq<char>) -> Result<ColorAxis, ConfigError> {
    if name == axis_name(ColorAxis::X) {
        Ok(ColorAxis::X)
    } else if name == axis_name(ColorAxis::Y) {
        Ok(ColorAxis::Y)
    } else if name == axis_name(ColorAxis::Z) {
        Ok(ColorAxis::Z)
    } else {
        Err(ConfigError::UnknownAxis)
    }
}

/// Position of the axis in an `(x, y, z)` triple.
pub open spec fn axis_index(a: ColorAxis) -> nat {
    match a {
        ColorAxis::X => 0,
        ColorAxis::Y => 1,
        ColorAxis::Z => 2,
    }
}

/// True when `s` is the one character `c`, an ASCII character.
fn str_is_char(s: &str, c: u8, Ghost(text): Ghost<Seq<char>>) -> (r: bool)
    requires
        is_ascii_chars(text),
        text.len() == 1,
        c == text[0] as u8,
    ensures
        r == (s@ == text),
{
    proof {
        is_ascii_chars_encode_utf8(text);
        encode_utf8_decode_utf8(text);
        encode_utf8_decode_utf8(s@);
    }
    let b = s.as_bytes();
    let r = b.len() == 1 && b[0] == c;
    proof {
        if r {
            assert(b@ =~= encode_utf8(text));
        }
    }
    r
}

impl ColorAxis {
    /// Looks an axis up by name; any name but "x", "y" or "z" is a
    /// configuration error.
    pub fn from_name(name: &str) -> (r: Result<ColorAxis, ConfigError>)
        ensures
            r == axis_named(name@),
    {
        if str_is_char(name, 'x' as u8, Ghost(axis_name(ColorAxis::X))) {
            Ok(ColorAxis::X)
        } else if str_is_char(name, 'y' as u8, Ghost(axis_name(ColorAxis::Y))) {
            Ok(ColorAxis::Y)
        } else if str_is_char(name, 'z' as u8, Ghost(axis_name(ColorAxis::Z))) {
            Ok(ColorAxis::Z)
        } else {
            Err(ConfigError::UnknownAxis)
        }
    }

    /// The axis's name: "x", "y" or "z".
    pub fn name(&self) -> (r: &'static str)
        ensures
            r@ == axis_name(*self),
    {
        match self {
            ColorAxis::X => {
                proof {
                    reveal_strlit("x");
                }
                "x"
            },
            ColorAxis::Y => {
                proof {
                    reveal_strlit("y");
                }
                "y"
            },
            ColorAxis::Z => {
                proof {
                    reveal_strlit("z");
                }
                "z"
            },
        }
    }

    /// Position of the axis in an `(x, y, z)` triple: 0, 1 or 2.
    pub fn index(&self) -> (r: usize)
        ensures
            r == axis_index(*self),
            r < 3,
    {
        match self {
            ColorAxis::X => 0,
            ColorAxis::Y => 1,
            ColorAxis::Z => 2,
        }
    }
}

/// How the vertices of a surface are colored from the colormap.
#[derive(Clone, Copy, Debug, PartialEq, Eq, Structural)]
pub struct Coloring {
    pub palette: Palette,
    pub axis: ColorAxis,
}

/// The checked, integer part of a surface description: its grid and, when
/// the colormap is on, the palette and the axis that drives it.
#[derive(Clone, Copy, Debug, PartialEq, Eq, Structural)]
pub struct MeshPlan {
    pub grid: Grid,
    pub coloring: Option<Coloring>,
}

/// What `MeshPlan::new` decides: the grid is checked first, then the palette
/// name, then the axis name; both names must be in their tables whether or
/// not the colormap is on.
pub open spec fn plan_of(
    u_segments: usize,
    v_segments: usize,
    use_colormap: bool,
    colormap_name: Seq<char>,
    axis_name: Seq<char>,
) -> Result<MeshPlan, ConfigError> {
    let g = Grid { u_segments, v_segments };
    if u_segments == 0 || v_segments == 0 {
        Err(ConfigError::ZeroSegments)
    } else if !g.wf() {
        Err(ConfigError::GridTooLarge)
    } else {
        match palette_named(colormap_name) {
            Err(e) => Err(e),
            Ok(palette) => match axis_named(axis_name) {
                Err(e) => Err(e),
                Ok(axis) => if use_colormap {
                    Ok(MeshPlan { grid: g, coloring: Some(Coloring { palette, axis }) })
                } else {
                    Ok(MeshPlan { grid: g, coloring: None })
                },
            },
        }
    }
}

impl MeshPlan {
    /// Checks the segment counts and the colormap settings of a surface
    /// description before any sampling starts. An unknown palette or axis
    /// name is an error even when the colormap is off.
    pub fn new(
        u_segments: usize,
        v_segments: usize,
        use_colormap: bool,
        colormap_name: &str,
        axis_name: &str,
    ) -> (r: Result<MeshPlan, ConfigError>)
        ensures
            r == plan_of(u_segments, v_segments, use_colormap, colormap_name@, axis_name@),
            r is Ok ==> r->Ok_0.grid.wf(),
    {
        let grid = match Grid::new(u_segments, v_segments) {
            Ok(g) => g,
            Err(e) => {
                return Err(e);
            },
        };
        let palette = match Palette::from_name(colormap_name) {
            Ok(p) => p,
            Err(e) => {
                return Err(e);
            },
        };
        let axis = match ColorAxis::from_name(axis_name) {
            Ok(a) => a,
            Err(e) => {
                return Err(e);
            },
        };
        if !use_colormap {
            return Ok(MeshPlan { grid, coloring: None });
        }
        Ok(MeshPlan { grid, coloring: Some(Coloring { palette, axis }) })
    }
}

/// The surfaces of the catalog.
#[derive(Clone, Copy, Debug, PartialEq, Eq, Structural)]
pub enum SurfaceKind {
    /// A torus from its major and minor radius.
    Torus,
    /// A Klein bottle.
    KleinBottle,
    /// Wellenkugel, a wavy sphere.
    Wellenkugel,
    /// The peaks height field.
    Peaks,
    /// The sinc height field, `sin(r) / r` with the value 1 at `r = 0`.
    Sinc,
    /// A sphere from its radius and two angles in degrees.
    Sphere,
}

/// The surface that catalog number `n` selects; numbers outside the catalog
/// select the torus.
pub open spec fn kind_of_selection(n: u64) -> SurfaceKind {
    if n == 1 {
        SurfaceKind::KleinBottle
    } else if n == 2 {
        SurfaceKind::Wellenkugel
    } else if n == 3 {
        SurfaceKind::Peaks
    } else if n == 4 {
        SurfaceKind::Sinc
    } else if n == 5 {
        SurfaceKind::Sphere
    } else {
        SurfaceKind::Torus
    }
}

/// The integer settings that a catalog surface is drawn with by default.
#[derive(Clone, Copy, Debug, PartialEq, Eq, Structural)]
pub struct CatalogEntry {
    pub kind: SurfaceKind,
    pub u_segments: usize,
    pub v_segments: usize,
    pub shading: Shading,
    pub palette: Palette,
    pub axis: ColorAxis,
}

/// Default segment counts, shading and colormap of surface `k`.
pub open spec fn catalog_entry(k: SurfaceKind) -> CatalogEntry {
    let (us, vs, shading, palette) = match k {
        SurfaceKind::Torus => (32usize, 24usize, Shading::Smooth, Palette::Jet),
        SurfaceKind::KleinBottle => (120usize, 40usize, Shading::Smooth, Palette::Jet),
        SurfaceKind::Wellenkugel => (100usize, 50usize, Shading::Smooth, Palette::Cool),
        SurfaceKind::Peaks => (30usize, 30usize, Shading::Flat, Palette::Jet),
        SurfaceKind::Sinc => (30usize, 30usize, Shading::Flat, Palette::Jet),
        SurfaceKind::Sphere => (32usize, 24usize, Shading::Smooth, Palette::Jet),
    };
    CatalogEntry { kind: k, u_segments: us, v_segments: vs, shading, palette, axis: ColorAxis::Y }
}

impl SurfaceKind {
    /// The surface that catalog number `n` selects: 1 the Klein bottle,
    /// 2 Wellenkugel, 3 peaks, 4 sinc, 5 the sphere, any other the torus.
    pub fn from_selection(n: u64) -> (r: SurfaceKind)
        ensures
            r == kind_of_selection(n),
    {
        if n == 1 {
            SurfaceKind::KleinBottle
        } else if n == 2 {
            SurfaceKind::Wellenkugel
        } else if n == 3 {
            SurfaceKind::Peaks
        } else if n == 4 {
            SurfaceKind::Sinc
        } else if n == 5 {
            SurfaceKind::Sphere
        } else {
            SurfaceKind::Torus
        }
    }

    /// Default segment counts, shading and colormap of this surface.
    pub fn catalog_entry(&self) -> (r: CatalogEntry)
        ensures
            r == catalog_entry(*self),
    {
        let (u_segments, v_segments, shading, palette) = match self {
            SurfaceKind::Torus => (32, 24, Shading::Smooth, Palette::Jet),
            SurfaceKind::KleinBottle => (120, 40, Shading::Smooth, Palette::Jet),
            SurfaceKind::Wellenkugel => (100, 50, Shading::Smooth, Palette::Cool),
            SurfaceKind::Peaks => (30, 30, Shading::Flat, Palette::Jet),
            SurfaceKind::Sinc => (30, 30, Shading::Flat, Palette::Jet),
            SurfaceKind::Sphere => (32, 24, Shading::Smooth, Palette::Jet),
        };
        CatalogEntry { kind: *self, u_segments, v_segments, shading, palette, axis: ColorAxis::Y }
    }
}

/// Every catalog entry describes a valid grid.
pub proof fn lemma_catalog_grids_valid(k: SurfaceKind)
    ensures
        (Grid {
            u_segments: catalog_entry(k).u_segments,
            v_segments: catalog_entry(k).v_segments,
        }).wf(),
{
    let e = catalog_entry(k);
    assert(e.u_segments <= 120 && e.v_segments <= 50);
    assert(node_count(e.u_segments as nat, e.v_segments as nat) <= 121 * 51) by (nonlinear_arith)
        requires
            e.u_segments <= 120,
            e.v_segments <= 50,
    ;
    assert(index_count(e.u_segments as nat, e.v_segments as nat) <= 6 * 120 * 50)
        by (nonlinear_arith)
        requires
            e.u_segments <= 120,
            e.v_segments <= 50,
    ;
}

} // verus!
