use vstd::prelude::*;
use crate::grid::{
    Grid, corner_di, corner_dj, entry_col, entry_row, index_count, lemma_cell_entry,
    lemma_cell_nodes, lemma_indices_in_range, lemma_slot_position, mesh_index, node_count,
    node_index, slot_corner,
};

verus! {

/// `s` holds, at the row-major position of each node `(i, j)` of `g`, a value
/// that `f` may return for `(i, j)`, and nothing else.
pub open spec fn samples_grid<V, F: Fn(usize, usize) -> V>(g: Grid, f: F, s: Seq<V>) -> bool {
    &&& s.len() == g.nodes()
    &&& forall|i: usize, j: usize|
        i <= g.u_segments && j <= g.v_segments ==> call_ensures(
            f,
            (i, j),
            #[trigger] s[node_index(g.v_segments as nat, i as nat, j as nat) as int],
        )
}

/// Each node `(a, b)` before node `(i, 0)` in row-major order has a smaller index.
proof fn lemma_earlier_rows(vs: nat, a: nat, b: nat, i: nat)
    requires
        a < i,
        b <= vs,
    ensures
        node_index(vs, a, b) < i * (vs + 1),
{
    assert(b + a * (vs + 1) < i * (vs + 1)) by (nonlinear_arith)
        requires
            a < i,
            b <= vs,
    ;
}

/// Evaluates `f` at every node `(i, j)` of the grid, `0 <= i <= u_segments`
/// and `0 <= j <= v_segments`, and returns the results in row-major order:
/// the value for `(i, j)` stands at `j + i * (v_segments + 1)`.
pub fn sample_grid<V, F: Fn(usize, usize) -> V>(g: &Grid, f: F) -> (r: Vec<V>)
    requires
        g.wf(),
        forall|i: usize, j: usize|
            i <= g.u_segments && j <= g.v_segments ==> #[trigger] call_requires(f, (i, j)),
    ensures
        samples_grid(*g, f, r@),
{
    proof {
        g.lemma_counts_fit();
    }
    let us = g.u_segments;
    let vs = g.v_segments;
    let mut out: Vec<V> = Vec::with_capacity(g.node_count());
    let mut i: usize = 0;
    while i <= us
        invariant
            g.wf(),
            us == g.u_segments,
            vs == g.v_segments,
            us + 1 <= g.nodes() <= usize::MAX,
            vs + 1 <= g.nodes(),
            i <= us + 1,
            forall|a: usize, b: usize|
                a <= us && b <= vs ==> #[trigger] call_requires(f, (a, b)),
            out@.len() == i * (vs + 1),
            forall|a: usize, b: usize|
                a < i && b <= vs ==> call_ensures(
                    f,
                    (a, b),
                    #[trigger] out@[node_index(vs as nat, a as nat, b as nat) as int],
                ),
        decreases us + 1 - i,
    {
        let mut j: usize = 0;
        while j <= vs
            invariant
                g.wf(),
                us == g.u_segments,
                vs == g.v_segments,
                us + 1 <= g.nodes() <= usize::MAX,
                vs + 1 <= g.nodes(),
                i <= us,
                j <= vs + 1,
                forall|a: usize, b: usize|
                    a <= us && b <= vs ==> #[trigger] call_requires(f, (a, b)),
                out@.len() == i * (vs + 1) + j,
                forall|a: usize, b: usize|
                    (a < i && b <= vs) || (a == i && b < j) ==> call_ensures(
                        f,
                        (a, b),
                        #[trigger] out@[node_index(vs as nat, a as nat, b as nat) as int],
                    ),
            decreases vs + 1 - j,
        {
            let ghost old_out = out@;
            let x = f(i, j);
            out.push(x);
            proof {
                assert forall|a: usize, b: usize|
                    (a < i && b <= vs) || (a == i && b < j + 1) implies call_ensures(
                    f,
                    (a, b),
                    #[trigger] out@[node_index(vs as nat, a as nat, b as nat) as int],
                ) by {
                    if a < i {
                        lemma_earlier_rows(vs as nat, a as nat, b as nat, i as nat);
                        assert(out@[node_index(vs as nat, a as nat, b as nat) as int]
                            == old_out[node_index(vs as nat, a as nat, b as nat) as int]);
                    } else if b < j {
                        assert(out@[node_index(vs as nat, a as nat, b as nat) as int]
                            == old_out[node_index(vs as nat, a as nat, b as nat) as int]);
                    }
                }
            }
            j += 1;
        }
        assert(i * (vs + 1) + vs + 1 == (i + 1) * (vs + 1)) by (nonlinear_arith);
        i += 1;
    }
    out
}

/// `s` holds, at position `i * v_segments + j` of each cell `(i, j)` of `g`,
/// a value that `f` may return for `(i, j)`, and nothing else.
pub open spec fn samples_cells<Q, F: Fn(usize, usize) -> Q>(g: Grid, f: F, s: Seq<Q>) -> bool {
    &&& s.len() == g.u_segments * g.v_segments
    &&& forall|i: usize, j: usize|
        i < g.u_segments && j < g.v_segments ==> call_ensures(
            f,
            (i, j),
            #[trigger] s[cell_index(g.v_segments as nat, i as nat, j as nat) as int],
        )
}

/// Position of cell `(i, j)` in the row-major cell sequence.
pub open spec fn cell_index(vs: nat, i: nat, j: nat) -> nat {
    i * vs + j
}

/// Evaluates `f` once per cell `(i, j)`, `0 <= i < u_segments` and
/// `0 <= j < v_segments`, and returns the results in row-major order: the
/// value for `(i, j)` stands at `i * v_segments + j`.
pub fn sample_cells<Q, F: Fn(usize, usize) -> Q>(g: &Grid, f: F) -> (r: Vec<Q>)
    requires
        g.wf(),
        forall|i: usize, j: usize|
            i < g.u_segments && j < g.v_segments ==> #[trigger] call_requires(f, (i, j)),
    ensures
        samples_cells(*g, f, r@),
{
    proof {
        g.lemma_counts_fit();
    }
    let us = g.u_segments;
    let vs = g.v_segments;
    let mut out: Vec<Q> = Vec::new();
    let mut i: usize = 0;
    while i < us
        invariant
            g.wf(),
            us == g.u_segments,
            vs == g.v_segments,
            us * vs <= g.nodes() <= usize::MAX,
            i <= us,
            forall|a: usize, b: usize|
                a < us && b < vs ==> #[trigger] call_requires(f, (a, b)),
            out@.len() == i * vs,
            forall|a: usize, b: usize|
                a < i && b < vs ==> call_ensures(
                    f,
                    (a, b),
                    #[trigger] out@[cell_index(vs as nat, a as nat, b as nat) as int],
                ),
        decreases us - i,
    {
        let mut j: usize = 0;
        while j < vs
            invariant
                g.wf(),
                us == g.u_segments,
                vs == g.v_segments,
                i < us,
                j <= vs,
                forall|a: usize, b: usize|
                    a < us && b < vs ==> #[trigger] call_requires(f, (a, b)),
                out@.len() == i * vs + j,
                forall|a: usize, b: usize|
                    (a < i && b < vs) || (a == i && b < j) ==> call_ensures(
                        f,
                        (a, b),
                        #[trigger] out@[cell_index(vs as nat, a as nat, b as nat) as int],
                    ),
            decreases vs - j,
        {
            let ghost old_out = out@;
            let x = f(i, j);
            out.push(x);
            proof {
                assert forall|a: usize, b: usize|
                    (a < i && b < vs) || (a == i && b < j + 1) implies call_ensures(
                    f,
                    (a, b),
                    #[trigger] out@[cell_index(vs as nat, a as nat, b as nat) as int],
                ) by {
                    if a < i {
                        assert(a * vs + b < i * vs) by (nonlinear_arith)
                            requires
                                a < i,
                                b < vs,
                        ;
                        assert(out@[cell_index(vs as nat, a as nat, b as nat) as int]
                            == old_out[cell_index(vs as nat, a as nat, b as nat) as int]);
                    } else if b < j {
                        assert(out@[cell_index(vs as nat, a as nat, b as nat) as int]
                            == old_out[cell_index(vs as nat, a as nat, b as nat) as int]);
                    }
                }
            }
            j += 1;
        }
        assert(i * vs + vs == (i + 1) * vs) by (nonlinear_arith);
        i += 1;
    }
    out
}

/// Lays a grid of `nx` by `nz` points, `pts[i][j]`, out as a list of
/// triangles without sharing: for each cell `(i, j)`, `i < nx - 1` outer and
/// `j < nz - 1` inner, the points `[i][j], [i][j + 1], [i + 1][j + 1]` and
/// `[i + 1][j + 1], [i + 1][j], [i][j]`; the same corners, in the same order,
/// as the index buffer of a grid of `nx - 1` by `nz - 1` cells names.
pub fn simple_surface_positions<T: Copy>(pts: &Vec<Vec<T>>, nx: usize, nz: usize) -> (r: Vec<T>)
    requires
        nx >= 1,
        nz >= 1,
        pts@.len() >= nx,
        forall|i: int| 0 <= i < nx ==> #[trigger] pts@[i]@.len() >= nz,
        index_count((nx - 1) as nat, (nz - 1) as nat) <= usize::MAX,
    ensures
        r@.len() == index_count((nx - 1) as nat, (nz - 1) as nat),
        forall|k: int|
            0 <= k < r@.len() ==> #[trigger] r@[k] == pts@[entry_row(
                (nz - 1) as nat,
                k as nat,
            ) as int]@[entry_col((nz - 1) as nat, k as nat) as int],
{
    let us = nx - 1;
    let vs = nz - 1;
    assert(6 * us * vs == 6 * (us * vs)) by (nonlinear_arith);
    let mut out: Vec<T> = Vec::new();
    let mut i: usize = 0;
    while i < us
        invariant
            us == nx - 1,
            vs == nz - 1,
            pts@.len() >= nx,
            forall|a: int| 0 <= a < nx ==> #[trigger] pts@[a]@.len() >= nz,
            6 * (us * vs) <= usize::MAX,
            i <= us,
            out@.len() == 6 * (i * vs),
            forall|k: int|
                0 <= k < out@.len() ==> #[trigger] out@[k] == pts@[entry_row(
                    vs as nat,
                    k as nat,
                ) as int]@[entry_col(vs as nat, k as nat) as int],
        decreases us - i,
    {
        let mut j: usize = 0;
        while j < vs
            invariant
                us == nx - 1,
                vs == nz - 1,
                pts@.len() >= nx,
                forall|a: int| 0 <= a < nx ==> #[trigger] pts@[a]@.len() >= nz,
                6 * (us * vs) <= usize::MAX,
                i < us,
                j <= vs,
                out@.len() == 6 * (i * vs + j),
                forall|k: int|
                    0 <= k < out@.len() ==> #[trigger] out@[k] == pts@[entry_row(
                        vs as nat,
                        k as nat,
                    ) as int]@[entry_col(vs as nat, k as nat) as int],
            decreases vs - j,
        {
            assert(i * vs + j < us * vs) by (nonlinear_arith)
                requires
                    i < us,
                    j < vs,
            ;
            let c00 = pts[i][j];
            let c01 = pts[i][j + 1];
            let c11 = pts[i + 1][j + 1];
            let c10 = pts[i + 1][j];
            let ghost base = out@.len();
            out.push(c00);
            out.push(c01);
            out.push(c11);
            out.push(c11);
            out.push(c10);
            out.push(c00);
            proof {
                assert forall|k: int| 0 <= k < out@.len() implies #[trigger] out@[k]
                    == pts@[entry_row(vs as nat, k as nat) as int]@[entry_col(
                    vs as nat,
                    k as nat,
                ) as int] by {
                    if k >= base {
                        lemma_cell_entry(vs as nat, i as nat, j as nat, (k - base) as nat);
                    }
                }
            }
            j += 1;
        }
        assert(6 * (i * vs + vs) == 6 * ((i + 1) * vs)) by (nonlinear_arith);
        i += 1;
    }
    out
}

/// How the vertices of a mesh share their corners.
#[derive(Clone, Copy, Debug, PartialEq, Eq, Structural)]
pub enum Shading {
    /// One vertex per grid node, shared by the triangles round it through
    /// the index buffer; normals vary smoothly across cells.
    Smooth,
    /// Six vertices per cell, two triangles listed corner by corner and no
    /// index buffer; each cell has one normal of its own.
    Flat,
}

/// The result of a tessellation.
pub struct Mesh<V> {
    pub shading: Shading,
    pub vertices: Vec<V>,
    /// Triangles as triples of positions in `vertices`; empty for a flat mesh.
    pub indices: Vec<u32>,
}

/// `m` is the smooth mesh of `g` whose vertex for each node `(i, j)` is a
/// value that `f` may return for `(i, j)`.
pub open spec fn is_smooth_mesh<V, F: Fn(usize, usize) -> V>(g: Grid, f: F, m: Mesh<V>) -> bool {
    &&& m.shading == Shading::Smooth
    &&& samples_grid(g, f, m.vertices@)
    &&& m.indices@.len() == g.indices()
    &&& forall|k: int|
        0 <= k < m.indices@.len() ==> m.indices@[k] as nat == #[trigger] mesh_index(
            g.v_segments as nat,
            k as nat,
        )
}

/// `m` is the flat mesh of `g` that lists for each cell, in row-major cell
/// order, the nodes of its two triangles, each paired with the cell's face value.
pub open spec fn is_flat_mesh<N, Q>(g: Grid, nodes: Seq<N>, faces: Seq<Q>, m: Mesh<(N, Q)>) -> bool {
    &&& m.shading == Shading::Flat
    &&& m.indices@.len() == 0
    &&& m.vertices@.len() == g.indices()
    &&& forall|k: int|
        0 <= k < m.vertices@.len() ==> #[trigger] m.vertices@[k] == (
            nodes[mesh_index(g.v_segments as nat, k as nat) as int],
            faces[k / 6],
        )
}

/// The order in which a flat layout lists the six corners of a cell `(i, j)`.
#[derive(Clone, Copy, Debug, PartialEq, Eq, Structural)]
pub enum CornerOrder {
    /// `(i, j), (i, j + 1), (i + 1, j + 1), (i + 1, j + 1), (i + 1, j), (i, j)`:
    /// the order of the index buffer.
    Standard,
    /// `(i, j), (i + 1, j), (i + 1, j + 1), (i + 1, j + 1), (i, j + 1), (i, j)`:
    /// the same diagonal, each triangle wound the other way.
    Transposed,
    /// `(i, j), (i + 1, j), (i, j + 1), (i + 1, j), (i + 1, j + 1), (i, j + 1)`:
    /// triangles split along the other diagonal.
    CrossDiagonal,
}

/// Row offset of the `s`-th corner that order `o` lists for a cell.
pub open spec fn order_di(o: CornerOrder, s: nat) -> nat {
    match o {
        CornerOrder::Standard => corner_di(slot_corner(s)),
        CornerOrder::Transposed => corner_dj(slot_corner(s)),
        CornerOrder::CrossDiagonal => if s == 1 || s == 3 || s == 4 {
            1
        } else {
            0
        },
    }
}

/// Column offset of the `s`-th corner that order `o` lists for a cell.
pub open spec fn order_dj(o: CornerOrder, s: nat) -> nat {
    match o {
        CornerOrder::Standard => corner_dj(slot_corner(s)),
        CornerOrder::Transposed => corner_di(slot_corner(s)),
        CornerOrder::CrossDiagonal => if s == 2 || s == 4 || s == 5 {
            1
        } else {
            0
        },
    }
}

/// Node that position `k` of the flat layout in order `o` carries, on a grid
/// with `vs` cells per row: cell `k / 6` in row-major order, corner `k % 6`.
pub open spec fn layout_index(o: CornerOrder, vs: nat, k: nat) -> nat
    recommends
        vs > 0,
{
    let cell = k / 6;
    node_index(vs, cell / vs + order_di(o, k % 6), cell % vs + order_dj(o, k % 6))
}

impl CornerOrder {
    /// Row and column offsets of the `s`-th corner of a cell in this order.
    pub fn offsets(&self, s: usize) -> (r: (usize, usize))
        requires
            s < 6,
        ensures
            r.0 == order_di(*self, s as nat),
            r.1 == order_dj(*self, s as nat),
            r.0 <= 1,
            r.1 <= 1,
    {
        match self {
            CornerOrder::Standard => if s == 0 || s == 5 {
                (0, 0)
            } else if s == 1 {
                (0, 1)
            } else if s == 4 {
                (1, 0)
            } else {
                (1, 1)
            },
            CornerOrder::Transposed => if s == 0 || s == 5 {
                (0, 0)
            } else if s == 1 {
                (1, 0)
            } else if s == 4 {
                (0, 1)
            } else {
                (1, 1)
            },
            CornerOrder::CrossDiagonal => if s == 0 {
                (0, 0)
            } else if s == 1 || s == 3 {
                (1, 0)
            } else if s == 2 || s == 5 {
                (0, 1)
            } else {
                (1, 1)
            },
        }
    }
}

/// `m` is the flat mesh of `g` in corner order `o`: for each cell, in
/// row-major cell order, its six corners as `o` lists them, each node's value
/// paired with the cell's face value.
pub open spec fn is_ordered_flat_mesh<N, Q>(
    g: Grid,
    o: CornerOrder,
    nodes: Seq<N>,
    faces: Seq<Q>,
    m: Mesh<(N, Q)>,
) -> bool {
    &&& m.shading == Shading::Flat
    &&& m.indices@.len() == 0
    &&& m.vertices@.len() == g.indices()
    &&& forall|k: int|
        0 <= k < m.vertices@.len() ==> #[trigger] m.vertices@[k] == (
            nodes[layout_index(o, g.v_segments as nat, k as nat) as int],
            faces[k / 6],
        )
}

impl<V> Mesh<V> {
    /// Tessellates `g` with shared vertices: the vertex of node `(i, j)` is
    /// `f(i, j)`, in row-major order, and the index buffer is that of
    /// `Grid::triangle_indices`.
    pub fn smooth<F: Fn(usize, usize) -> V>(g: &Grid, f: F) -> (r: Mesh<V>)
        requires
            g.wf(),
            forall|i: usize, j: usize|
                i <= g.u_segments && j <= g.v_segments ==> #[trigger] call_requires(f, (i, j)),
        ensures
            is_smooth_mesh(*g, f, r),
            r.wf(),
    {
        let vertices = sample_grid(g, f);
        let indices = g.triangle_indices();
        let r = Mesh { shading: Shading::Smooth, vertices, indices };
        proof {
            lemma_smooth_mesh_counts(*g, f, r);
        }
        r
    }

    /// Lists vertices and indices fit together: every index names a vertex,
    /// and a flat mesh has no index buffer and six vertices per cell.
    pub open spec fn wf(&self) -> bool {
        &&& self.shading == Shading::Smooth ==> forall|k: int|
            0 <= k < self.indices@.len() ==> (#[trigger] self.indices@[k] as int)
                < self.vertices@.len()
        &&& self.shading == Shading::Flat ==> self.indices@.len() == 0
            && self.vertices@.len() % 6 == 0
    }
}

impl<N: Copy, Q: Copy> Mesh<(N, Q)> {
    /// Tessellates `g` cell by cell without sharing: for each cell `(i, j)` in
    /// row-major order, the six corners of its triangles as in
    /// `Grid::triangle_indices`, each the node's value paired with the value
    /// of face `i * v_segments + j`.
    pub fn flat(g: &Grid, nodes: &Vec<N>, faces: &Vec<Q>) -> (r: Mesh<(N, Q)>)
        requires
            g.wf(),
            nodes@.len() == g.nodes(),
            faces@.len() == g.u_segments * g.v_segments,
        ensures
            is_flat_mesh(*g, nodes@, faces@, r),
            r.wf(),
    {
        let r = Self::flat_ordered(g, nodes, faces, CornerOrder::Standard);
        proof {
            assert forall|k: int| 0 <= k < r.vertices@.len() implies #[trigger] r.vertices@[k] == (
                nodes@[mesh_index(g.v_segments as nat, k as nat) as int],
                faces@[k / 6],
            ) by {
                assert(r.vertices@[k] == (
                    nodes@[layout_index(
                        CornerOrder::Standard,
                        g.v_segments as nat,
                        k as nat,
                    ) as int],
                    faces@[k / 6],
                ));
            }
            lemma_flat_mesh_counts(*g, nodes@, faces@, r);
        }
        r
    }

    /// Tessellates `g` cell by cell without sharing, the corners of each cell
    /// listed in order `o`: for each cell `(i, j)` in row-major order, six
    /// vertices, each the value of the node that `o` names paired with the
    /// value of face `i * v_segments + j`.
    pub fn flat_ordered(g: &Grid, nodes: &Vec<N>, faces: &Vec<Q>, o: CornerOrder) -> (r: Mesh<
        (N, Q),
    >)
        requires
            g.wf(),
            nodes@.len() == g.nodes(),
            faces@.len() == g.u_segments * g.v_segments,
        ensures
            is_ordered_flat_mesh(*g, o, nodes@, faces@, r),
            r.wf(),
    {
        proof {
            g.lemma_counts_fit();
        }
        let us = g.u_segments;
        let vs = g.v_segments;
        let row = vs + 1;
        let mut out: Vec<(N, Q)> = Vec::with_capacity(g.index_count());
        let mut i: usize = 0;
        while i < us
            invariant
                g.wf(),
                us == g.u_segments,
                vs == g.v_segments,
                row == vs + 1,
                nodes@.len() == g.nodes(),
                faces@.len() == us * vs,
                us * vs <= g.nodes() <= usize::MAX,
                i <= us,
                out@.len() == 6 * (i * vs),
                forall|k: int|
                    0 <= k < out@.len() ==> #[trigger] out@[k] == (
                        nodes@[layout_index(o, vs as nat, k as nat) as int],
                        faces@[k / 6],
                    ),
            decreases us - i,
        {
            let mut j: usize = 0;
            while j < vs
                invariant
                    g.wf(),
                    us == g.u_segments,
                    vs == g.v_segments,
                    row == vs + 1,
                    nodes@.len() == g.nodes(),
                    faces@.len() == us * vs,
                    us * vs <= g.nodes() <= usize::MAX,
                    i < us,
                    j <= vs,
                    out@.len() == 6 * (i * vs + j),
                    forall|k: int|
                        0 <= k < out@.len() ==> #[trigger] out@[k] == (
                            nodes@[layout_index(o, vs as nat, k as nat) as int],
                            faces@[k / 6],
                        ),
                decreases vs - j,
            {
                proof {
                    lemma_cell_nodes(us as nat, vs as nat, i as nat, j as nat);
                    assert(i * vs + j < us * vs) by (nonlinear_arith)
                        requires
                            i < us,
                            j < vs,
                    ;
                }
                let a = j + i * row;
                let cell = i * vs + j;
                let q = faces[cell];
                let mut s: usize = 0;
                while s < 6
                    invariant
                        g.wf(),
                        us == g.u_segments,
                        vs == g.v_segments,
                        row == vs + 1,
                        nodes@.len() == g.nodes(),
                        faces@.len() == us * vs,
                        i < us,
                        j < vs,
                        a == node_index(vs as nat, i as nat, j as nat),
                        node_index(vs as nat, i as nat, j as nat) + 1 == node_index(
                            vs as nat,
                            i as nat,
                            j as nat + 1,
                        ),
                        node_index(vs as nat, i as nat, j as nat) + vs + 1 == node_index(
                            vs as nat,
                            i as nat + 1,
                            j as nat,
                        ),
                        node_index(vs as nat, i as nat + 1, j as nat + 1) < g.nodes(),
                        node_index(vs as nat, i as nat, j as nat + 1) + vs + 1 == node_index(
                            vs as nat,
                            i as nat + 1,
                            j as nat + 1,
                        ),
                        cell == i * vs + j,
                        cell < us * vs,
                        q == faces@[cell as int],
                        s <= 6,
                        out@.len() == 6 * (i * vs + j) + s,
                        forall|k: int|
                            0 <= k < out@.len() ==> #[trigger] out@[k] == (
                                nodes@[layout_index(o, vs as nat, k as nat) as int],
                                faces@[k / 6],
                            ),
                    decreases 6 - s,
                {
                    let (di, dj) = o.offsets(s);
                    let idx = if di == 1 {
                        a + dj + row
                    } else {
                        a + dj
                    };
                    proof {
                        lemma_slot_position(vs as nat, i as nat, j as nat, s as nat);
                        assert(idx == node_index(vs as nat, (i + di) as nat, (j + dj) as nat));
                    }
                    let n = nodes[idx];
                    let ghost before = out@;
                    out.push((n, q));
                    proof {
                        assert forall|k: int| 0 <= k < out@.len() implies #[trigger] out@[k] == (
                            nodes@[layout_index(o, vs as nat, k as nat) as int],
                            faces@[k / 6],
                        ) by {
                            if k < before.len() {
                                assert(out@[k] == before[k]);
                            }
                        }
                    }
                    s += 1;
                }
                j += 1;
            }
            assert(6 * (i * vs + vs) == 6 * ((i + 1) * vs)) by (nonlinear_arith);
            i += 1;
        }
        assert(6 * (us * vs) == 6 * us * vs) by (nonlinear_arith);
        assert(out@.len() % 6 == 0);
        Mesh { shading: Shading::Flat, vertices: out, indices: Vec::new() }
    }
}

/// A smooth mesh has one vertex per node, `(u_segments + 1) * (v_segments + 1)`,
/// and `6 * u_segments * v_segments` indices, each of which names one of
/// its vertices.
pub proof fn lemma_smooth_mesh_counts<V, F: Fn(usize, usize) -> V>(g: Grid, f: F, m: Mesh<V>)
    requires
        g.wf(),
        is_smooth_mesh(g, f, m),
    ensures
        m.vertices@.len() == node_count(g.u_segments as nat, g.v_segments as nat),
        m.indices@.len() == 6 * g.u_segments * g.v_segments,
        forall|k: int| 0 <= k < m.indices@.len() ==> (m.indices@[k] as int) < m.vertices@.len(),
        m.wf(),
{
    assert forall|k: int| 0 <= k < m.indices@.len() implies (m.indices@[k] as int)
        < m.vertices@.len() by {
        lemma_indices_in_range(g, k as nat);
        assert(m.indices@[k] as nat == mesh_index(g.v_segments as nat, k as nat));
    }
}

/// A flat mesh has six vertices per cell, `6 * u_segments * v_segments`, and
/// no index buffer; the vertex at position `k` carries the node that entry
/// `k` of the smooth mesh's index buffer names.
pub proof fn lemma_flat_mesh_counts<N, Q>(g: Grid, nodes: Seq<N>, faces: Seq<Q>, m: Mesh<(N, Q)>)
    requires
        g.wf(),
        is_flat_mesh(g, nodes, faces, m),
    ensures
        m.vertices@.len() == 6 * g.u_segments * g.v_segments,
        m.indices@.len() == 0,
        m.wf(),
{
    assert(6 * g.u_segments * g.v_segments == 6 * (g.u_segments * g.v_segments))
        by (nonlinear_arith);
}

/// The flat mesh built on the vertices of a smooth mesh of the same grid is
/// that smooth mesh with its index buffer expanded: its `k`-th vertex carries
/// the smooth vertex that the `k`-th index names.
pub proof fn lemma_flat_expands_smooth<V, Q, F: Fn(usize, usize) -> V>(
    g: Grid,
    f: F,
    smooth: Mesh<V>,
    faces: Seq<Q>,
    flat: Mesh<(V, Q)>,
)
    requires
        g.wf(),
        is_smooth_mesh(g, f, smooth),
        is_flat_mesh(g, smooth.vertices@, faces, flat),
    ensures
        flat.vertices@.len() == smooth.indices@.len(),
        forall|k: int|
            0 <= k < flat.vertices@.len() ==> (#[trigger] flat.vertices@[k]).0
                == smooth.vertices@[smooth.indices@[k] as int],
{
    assert forall|k: int| 0 <= k < flat.vertices@.len() implies (
    #[trigger] flat.vertices@[k]).0 == smooth.vertices@[smooth.indices@[k] as int] by {
        assert(smooth.indices@[k] as nat == mesh_index(g.v_segments as nat, k as nat));
    }
}

/// Tessellating the same grid twice with a function that returns one value
/// per node gives the same mesh: same shading, vertices and indices.
pub proof fn lemma_smooth_mesh_deterministic<V, F: Fn(usize, usize) -> V>(
    g: Grid,
    f: F,
    m1: Mesh<V>,
    m2: Mesh<V>,
)
    requires
        g.wf(),
        forall|i: usize, j: usize, x: V, y: V|
            i <= g.u_segments && j <= g.v_segments && call_ensures(f, (i, j), x) && call_ensures(
                f,
                (i, j),
                y,
            ) ==> x == y,
        is_smooth_mesh(g, f, m1),
        is_smooth_mesh(g, f, m2),
    ensures
        m1.shading == m2.shading,
        m1.vertices@ == m2.vertices@,
        m1.indices@ == m2.indices@,
{
    let vs = g.v_segments as nat;
    assert forall|k: int| 0 <= k < m1.vertices@.len() implies m1.vertices@[k]
        == m2.vertices@[k] by {
        let (i, j) = lemma_node_of(g.u_segments as nat, vs, k as nat);
        let iu = i as usize;
        let ju = j as usize;
        assert(m1.vertices@[node_index(vs, iu as nat, ju as nat) as int] == m1.vertices@[k]);
        assert(call_ensures(f, (iu, ju), m1.vertices@[k]));
        assert(call_ensures(f, (iu, ju), m2.vertices@[k]));
    }
    assert(m1.vertices@ =~= m2.vertices@);
    assert forall|k: int| 0 <= k < m1.indices@.len() implies m1.indices@[k]
        == m2.indices@[k] by {
        assert(m1.indices@[k] as nat == mesh_index(vs, k as nat));
        assert(m2.indices@[k] as nat == mesh_index(vs, k as nat));
    }
    assert(m1.indices@ =~= m2.indices@);
}

/// Every position below the node count is the row-major index of a node.
proof fn lemma_node_of(us: nat, vs: nat, k: nat) -> (ij: (nat, nat))
    requires
        k < node_count(us, vs),
    ensures
        ij.0 <= us,
        ij.1 <= vs,
        node_index(vs, ij.0, ij.1) == k,
{
    let i = k / (vs + 1);
    let j = k % (vs + 1);
    vstd::arithmetic::div_mod::lemma_fundamental_div_mod(k as int, (vs + 1) as int);
    assert(i * (vs + 1) == (vs + 1) * i) by (nonlinear_arith);
    if i > us {
        assert(i * (vs + 1) >= (us + 1) * (vs + 1)) by (nonlinear_arith)
            requires
                i > us,
        ;
    }
    (i, j)
}

} // verus!
