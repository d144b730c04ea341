use vstd::prelude::*;
use vstd::arithmetic::div_mod::lemma_fundamental_div_mod_converse;
use crate::error::ConfigError;

verus! {

/// Number of grid nodes that a 32-bit index buffer can address.
pub const MAX_NODES: u64 = 4294967296;

/// Number of nodes of a grid with `us` by `vs` cells: `(us + 1) * (vs + 1)`.
pub open spec fn node_count(us: nat, vs: nat) -> nat {
    (us + 1) * (vs + 1)
}

/// Number of entries of the index buffer: two triangles of three indices per cell.
pub open spec fn index_count(us: nat, vs: nat) -> nat {
    6 * us * vs
}

/// Position in the row-major node sequence of node `(i, j)`.
pub open spec fn node_index(vs: nat, i: nat, j: nat) -> nat {
    j + i * (vs + 1)
}

/// Row offset of corner `c` of a cell, corners taken in the order
/// `(i, j)`, `(i, j + 1)`, `(i + 1, j + 1)`, `(i + 1, j)`.
pub open spec fn corner_di(c: nat) -> nat {
    if c == 2 || c == 3 {
        1
    } else {
        0
    }
}

/// Column offset of corner `c` of a cell, in the order of `corner_di`.
pub open spec fn corner_dj(c: nat) -> nat {
    if c == 1 || c == 2 {
        1
    } else {
        0
    }
}

/// Node index of corner `c` of cell `(i, j)`.
pub open spec fn cell_corner(vs: nat, i: nat, j: nat, c: nat) -> nat {
    node_index(vs, i + corner_di(c), j + corner_dj(c))
}

/// Which corner of its cell the `s`-th of the six entries of a cell names:
/// triangles `(0, 1, 2)` and `(2, 3, 0)`, the same diagonal in every cell.
pub open spec fn slot_corner(s: nat) -> nat {
    if s == 0 {
        0
    } else if s == 1 {
        1
    } else if s == 2 || s == 3 {
        2
    } else if s == 4 {
        3
    } else {
        0
    }
}

/// Row of the node that entry `k` of the index buffer names, on a grid
/// with `vs` cells per row.
pub open spec fn entry_row(vs: nat, k: nat) -> nat
    recommends
        vs > 0,
{
    (k / 6) / vs + corner_di(slot_corner(k % 6))
}

/// Column of the node that entry `k` of the index buffer names.
pub open spec fn entry_col(vs: nat, k: nat) -> nat
    recommends
        vs > 0,
{
    (k / 6) % vs + corner_dj(slot_corner(k % 6))
}

/// Entry `k` of the index buffer of a grid with `vs` cells per row.
pub open spec fn mesh_index(vs: nat, k: nat) -> nat
    recommends
        vs > 0,
{
    node_index(vs, entry_row(vs, k), entry_col(vs, k))
}

/// The parameter grid of a tessellation: `u_segments` by `v_segments` cells.
#[derive(Clone, Copy, Debug, PartialEq, Eq, Structural)]
pub struct Grid {
    pub u_segments: usize,
    pub v_segments: usize,
}

impl Grid {
    /// At least one cell each way, every node addressable by a `u32`, and
    /// the index buffer's length a `usize`.
    pub open spec fn wf(&self) -> bool {
        &&& self.u_segments >= 1
        &&& self.v_segments >= 1
        &&& node_count(self.u_segments as nat, self.v_segments as nat) <= MAX_NODES
        &&& index_count(self.u_segments as nat, self.v_segments as nat) <= usize::MAX
    }

    /// Number of nodes, `(u_segments + 1) * (v_segments + 1)`.
    pub open spec fn nodes(&self) -> nat {
        node_count(self.u_segments as nat, self.v_segments as nat)
    }

    /// Length of the index buffer, `6 * u_segments * v_segments`.
    pub open spec fn indices(&self) -> nat {
        index_count(self.u_segments as nat, self.v_segments as nat)
    }

    /// Checks the segment counts of a surface description.
    pub fn new(u_segments: usize, v_segments: usize) -> (r: Result<Grid, ConfigError>)
        ensures
            u_segments == 0 || v_segments == 0 ==> r == Err::<Grid, ConfigError>(
                ConfigError::ZeroSegments,
            ),
            u_segments >= 1 && v_segments >= 1 ==> {
                let g = Grid { u_segments, v_segments };
                &&& g.wf() ==> r == Ok::<Grid, ConfigError>(g)
                &&& !g.wf() ==> r == Err::<Grid, ConfigError>(ConfigError::GridTooLarge)
            },
    {
        if u_segments == 0 || v_segments == 0 {
            return Err(ConfigError::ZeroSegments);
        }
        let g = Grid { u_segments, v_segments };
        if u_segments as u64 >= MAX_NODES - 1 || v_segments as u64 >= MAX_NODES - 1 {
            proof {
                lemma_large_side(u_segments as nat, v_segments as nat);
            }
            return Err(ConfigError::GridTooLarge);
        }
        let nu: u64 = u_segments as u64 + 1;
        let nv: u64 = v_segments as u64 + 1;
        proof {
            lemma_mul_bound(nu as nat, nv as nat, MAX_NODES as nat);
        }
        let n: u64 = nu * nv;
        if n > MAX_NODES {
            return Err(ConfigError::GridTooLarge);
        }
        proof {
            lemma_cells_below_nodes(u_segments as nat, v_segments as nat);
        }
        let cells: u64 = u_segments as u64 * v_segments as u64;
        proof {
            lemma_div_six(u_segments as nat, v_segments as nat, usize::MAX as nat);
        }
        if cells > usize::MAX as u64 / 6 {
            return Err(ConfigError::GridTooLarge);
        }
        Ok(g)
    }

    /// Number of grid nodes, `(u_segments + 1) * (v_segments + 1)`.
    pub fn node_count(&self) -> (r: usize)
        requires
            self.wf(),
        ensures
            r == self.nodes(),
    {
        proof {
            self.lemma_counts_fit();
        }
        let nu = self.u_segments + 1;
        let nv = self.v_segments + 1;
        assert(nu * nv == self.nodes());
        nu * nv
    }

    /// Number of index-buffer entries, `6 * u_segments * v_segments`.
    pub fn index_count(&self) -> (r: usize)
        requires
            self.wf(),
        ensures
            r == self.indices(),
    {
        proof {
            self.lemma_counts_fit();
        }
        6 * self.u_segments * self.v_segments
    }

    /// The index buffer: for each cell `(i, j)`, `i` outer and `j` inner, the
    /// triangles `(i, j), (i, j + 1), (i + 1, j + 1)` and
    /// `(i + 1, j + 1), (i + 1, j), (i, j)` as node indices.
    pub fn triangle_indices(&self) -> (r: Vec<u32>)
        requires
            self.wf(),
        ensures
            r@.len() == self.indices(),
            forall|k: int|
                0 <= k < r@.len() ==> r@[k] as nat == #[trigger] mesh_index(
                    self.v_segments as nat,
                    k as nat,
                ),
    {
        proof {
            self.lemma_counts_fit();
        }
        let us = self.u_segments;
        let vs = self.v_segments;
        let row = vs + 1;
        let mut out: Vec<u32> = Vec::with_capacity(self.index_count());
        let mut i: usize = 0;
        while i < us
            invariant
                self.wf(),
                us == self.u_segments,
                vs == self.v_segments,
                row == vs + 1,
                i <= us,
                out@.len() == 6 * (i * vs),
                forall|k: int|
                    0 <= k < out@.len() ==> out@[k] as nat == #[trigger] mesh_index(
                        vs as nat,
                        k as nat,
                    ),
            decreases us - i,
        {
            let mut j: usize = 0;
            while j < vs
                invariant
                    self.wf(),
                    us == self.u_segments,
                    vs == self.v_segments,
                    row == vs + 1,
                    i < us,
                    j <= vs,
                    out@.len() == 6 * (i * vs + j),
                    forall|k: int|
                        0 <= k < out@.len() ==> out@[k] as nat == #[trigger] mesh_index(
                            vs as nat,
                            k as nat,
                        ),
                decreases vs - j,
            {
                proof {
                    lemma_cell_nodes(us as nat, vs as nat, i as nat, j as nat);
                }
                let a = j + i * row;
                let b = a + 1;
                let c = b + row;
                let d = a + row;
                let ghost base = out@.len();
                out.push(a as u32);
                out.push(b as u32);
                out.push(c as u32);
                out.push(c as u32);
                out.push(d as u32);
                out.push(a as u32);
                proof {
                    assert forall|k: int| 0 <= k < out@.len() implies out@[k] as nat
                        == #[trigger] mesh_index(vs as nat, k as nat) by {
                        if k >= base {
                            lemma_cell_entry(vs as nat, i as nat, j as nat, (k - base) as nat);
                        }
                    }
                }
                j += 1;
            }
            assert(6 * (i * vs + vs) == 6 * ((i + 1) * vs)) by (nonlinear_arith);
            i += 1;
        }
        assert(6 * (us * vs) == 6 * us * vs) by (nonlinear_arith);
        out
    }

    pub(crate) proof fn lemma_counts_fit(&self)
        requires
            self.wf(),
        ensures
            self.nodes() <= usize::MAX,
            6 * self.u_segments <= usize::MAX,
            self.u_segments * self.v_segments <= self.nodes(),
            self.u_segments + 1 <= self.nodes(),
            self.v_segments + 1 <= self.nodes(),
    {
        let us = self.u_segments as nat;
        let vs = self.v_segments as nat;
        lemma_cells_below_nodes(us, vs);
        assert((us + 1) * (vs + 1) >= us + 1 && (us + 1) * (vs + 1) >= vs + 1) by (nonlinear_arith);
        assert(6 * us <= 6 * us * vs) by (nonlinear_arith)
            requires
                vs >= 1,
        ;
        assert(node_count(us, vs) <= 6 * us * vs) by (nonlinear_arith)
            requires
                us >= 1,
                vs >= 1,
                node_count(us, vs) == (us + 1) * (vs + 1),
        ;
    }
}

/// Where the six entries of cell `(i, j)` stand and which nodes they name.
pub(crate) proof fn lemma_cell_entry(vs: nat, i: nat, j: nat, s: nat)
    requires
        j < vs,
        s < 6,
    ensures
        mesh_index(vs, 6 * (i * vs + j) + s) == cell_corner(vs, i, j, slot_corner(s)),
        entry_row(vs, 6 * (i * vs + j) + s) == i + corner_di(slot_corner(s)),
        entry_col(vs, 6 * (i * vs + j) + s) == j + corner_dj(slot_corner(s)),
{
    let cell = i * vs + j;
    lemma_fundamental_div_mod_converse((6 * cell + s) as int, 6, cell as int, s as int);
    lemma_fundamental_div_mod_converse(cell as int, vs as int, i as int, j as int);
}

/// Entry `s` of cell `(i, j)` stands at `6 * (i * vs + j) + s`.
pub(crate) proof fn lemma_slot_position(vs: nat, i: nat, j: nat, s: nat)
    requires
        j < vs,
        s < 6,
    ensures
        (6 * (i * vs + j) + s) / 6 == i * vs + j,
        (6 * (i * vs + j) + s) % 6 == s,
        (i * vs + j) / vs == i,
        (i * vs + j) % vs == j,
{
    let cell = i * vs + j;
    lemma_fundamental_div_mod_converse((6 * cell + s) as int, 6, cell as int, s as int);
    lemma_fundamental_div_mod_converse(cell as int, vs as int, i as int, j as int);
}

/// The four corners of cell `(i, j)` are nodes of the grid.
pub(crate) proof fn lemma_cell_nodes(us: nat, vs: nat, i: nat, j: nat)
    requires
        i < us,
        j < vs,
    ensures
        node_index(vs, i, j) + 1 == node_index(vs, i, j + 1),
        node_index(vs, i, j) + vs + 1 == node_index(vs, i + 1, j),
        node_index(vs, i, j + 1) + vs + 1 == node_index(vs, i + 1, j + 1),
        node_index(vs, i + 1, j + 1) < node_count(us, vs),
{
    assert((i + 1) * (vs + 1) == i * (vs + 1) + vs + 1) by (nonlinear_arith);
    assert((i + 1) * (vs + 1) <= us * (vs + 1)) by (nonlinear_arith)
        requires
            i < us,
    ;
    assert((us + 1) * (vs + 1) == us * (vs + 1) + vs + 1) by (nonlinear_arith);
}

/// Entry `k` of the index buffer lies in cell `(i, j)` of the grid, at slot `k % 6`.
proof fn lemma_entry_cell(us: nat, vs: nat, k: nat) -> (ij: (nat, nat))
    requires
        vs >= 1,
        k < index_count(us, vs),
    ensures
        ij.0 < us,
        ij.1 < vs,
        k == 6 * (ij.0 * vs + ij.1) + k % 6,
        k % 6 < 6,
{
    let c = k / 6;
    let i = c / vs;
    let j = c % vs;
    assert(k == 6 * c + k % 6);
    assert(c == vs * i + j) by {
        vstd::arithmetic::div_mod::lemma_fundamental_div_mod(c as int, vs as int);
    }
    assert(i * vs == vs * i) by (nonlinear_arith);
    if i >= us {
        assert(i * vs >= us * vs) by (nonlinear_arith)
            requires
                i >= us,
        ;
        assert(6 * us * vs == 6 * (us * vs)) by (nonlinear_arith);
    }
    (i, j)
}

/// Every entry of the index buffer names a node of the grid: it is below
/// `(u_segments + 1) * (v_segments + 1)`.
pub proof fn lemma_indices_in_range(g: Grid, k: nat)
    requires
        g.wf(),
        k < g.indices(),
    ensures
        mesh_index(g.v_segments as nat, k) < g.nodes(),
        entry_row(g.v_segments as nat, k) <= g.u_segments,
        entry_col(g.v_segments as nat, k) <= g.v_segments,
{
    let us = g.u_segments as nat;
    let vs = g.v_segments as nat;
    let (i, j) = lemma_entry_cell(us, vs, k);
    lemma_cell_entry(vs, i, j, k % 6);
    lemma_cell_nodes(us, vs, i, j);
}

/// The three entries of every triangle of the index buffer name three
/// distinct nodes.
pub proof fn lemma_triangles_nondegenerate(g: Grid, t: nat)
    requires
        g.wf(),
        3 * t + 2 < g.indices(),
    ensures
        mesh_index(g.v_segments as nat, 3 * t) != mesh_index(g.v_segments as nat, 3 * t + 1),
        mesh_index(g.v_segments as nat, 3 * t + 1) != mesh_index(g.v_segments as nat, 3 * t + 2),
        mesh_index(g.v_segments as nat, 3 * t) != mesh_index(g.v_segments as nat, 3 * t + 2),
{
    let us = g.u_segments as nat;
    let vs = g.v_segments as nat;
    let (i, j) = lemma_entry_cell(us, vs, 3 * t);
    let h = t % 2;
    lemma_fundamental_div_mod_converse(t as int, 2, (t / 2) as int, h as int);
    assert((3 * t) % 6 == 3 * h) by {
        lemma_fundamental_div_mod_converse((3 * t) as int, 6, (t / 2) as int, (3 * h) as int);
    }
    let base = 6 * (i * vs + j);
    lemma_cell_entry(vs, i, j, 3 * h);
    lemma_cell_entry(vs, i, j, 3 * h + 1);
    lemma_cell_entry(vs, i, j, 3 * h + 2);
    lemma_cell_nodes(us, vs, i, j);
}

proof fn lemma_large_side(us: nat, vs: nat)
    requires
        us >= 1,
        vs >= 1,
        us >= MAX_NODES - 1 || vs >= MAX_NODES - 1,
    ensures
        node_count(us, vs) > MAX_NODES,
{
    assert((us + 1) * (vs + 1) >= 2 * (us + 1) && (us + 1) * (vs + 1) >= 2 * (vs + 1))
        by (nonlinear_arith)
        requires
            us >= 1,
            vs >= 1,
    ;
}

proof fn lemma_mul_bound(a: nat, b: nat, m: nat)
    requires
        a < m,
        b < m,
        m == MAX_NODES,
    ensures
        a * b <= u64::MAX,
{
    assert(a * b <= (m - 1) * (m - 1)) by (nonlinear_arith)
        requires
            a < m,
            b < m,
    ;
    assert((m - 1) * (m - 1) == 4294967295nat * 4294967295nat);
}

proof fn lemma_cells_below_nodes(us: nat, vs: nat)
    ensures
        us * vs <= node_count(us, vs),
{
    assert(us * vs <= (us + 1) * (vs + 1)) by (nonlinear_arith);
}

proof fn lemma_div_six(us: nat, vs: nat, m: nat)
    ensures
        us * vs <= m / 6 <==> index_count(us, vs) <= m,
{
    assert(6 * us * vs == 6 * (us * vs)) by (nonlinear_arith);
}

} // verus!
