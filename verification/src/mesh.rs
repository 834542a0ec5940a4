//! Index buffers for triangle meshes.
//!
//! Indices are 16-bit.  Where a vertex number does not fit, it is stored
//! modulo 2^16, as an `as u16` conversion does.

use vstd::prelude::*;

verus! {

/// `x` reduced modulo 2^16, the value an `as u16` conversion keeps.
pub open spec fn wrap16(x: int) -> u16 {
    (x % 65536) as u16
}

/// The six indices of the two triangles (0, 1, 2) and (2, 3, 0) of a quad
/// whose first vertex has number `base`.
pub open spec fn quad_indices(base: int) -> Seq<u16> {
    seq![
        wrap16(base),
        wrap16(base + 1),
        wrap16(base + 2),
        wrap16(base + 2),
        wrap16(base + 3),
        wrap16(base),
    ]
}

/// Vertices and the triangle list over them.
pub struct MeshData<V> {
    pub vertices: Vec<V>,
    pub indices: Vec<u16>,
}

impl<V> MeshData<V> {
    /// A mesh without vertices or indices.
    pub fn new() -> (mesh: MeshData<V>)
        ensures
            mesh.vertices@ == Seq::<V>::empty(),
            mesh.indices@ == Seq::<u16>::empty(),
    {
        MeshData { vertices: Vec::new(), indices: Vec::new() }
    }

    /// Appends the four corners `a`, `b`, `c`, `d` of a quad and the two triangles (0, 1, 2) and
    /// (2, 3, 0) over them.
    pub fn push_quad(&mut self, a: V, b: V, c: V, d: V)
        requires
            old(self).vertices.len() % 65536 <= 65532,
        ensures
            final(self).vertices@ == old(self).vertices@ + seq![a, b, c, d],
            final(self).indices@ == old(self).indices@ + quad_indices(
                old(self).vertices.len() as int,
            ),
    {
        let vertex_count = (self.vertices.len() % 65536) as u16;
        self.vertices.push(a);
        self.vertices.push(b);
        self.vertices.push(c);
        self.vertices.push(d);
        self.indices.push(vertex_count);
        self.indices.push(vertex_count + 1);
        self.indices.push(vertex_count + 2);
        self.indices.push(vertex_count + 2);
        self.indices.push(vertex_count + 3);
        self.indices.push(vertex_count);
    }
}

/// The indices `0, 1, ..., count - 1`, each stored modulo 2^16: one index per
/// vertex, for meshes that list every triangle's vertices on their own.
pub fn sequential_indices(count: usize) -> (indices: Vec<u16>)
    ensures
        indices.len() == count,
        forall|i: int| 0 <= i < count ==> #[trigger] indices@[i] == wrap16(i),
{
    let mut indices: Vec<u16> = Vec::new();
    let mut i: usize = 0;
    while i < count
        invariant
            i <= count,
            indices.len() == i,
            forall|j: int| 0 <= j < i ==> #[trigger] indices@[j] == wrap16(j),
        decreases count - i,
    {
        indices.push((i % 65536) as u16);
        i = i + 1;
    }
    indices
}

/// The six indices of grid cell (x, y) of a square grid of `resolution` by
/// `resolution` vertices numbered row by row: the triangles
/// (v, v + r + 1, v + r) and (v, v + 1, v + r + 1), where v = x + y * r is
/// the cell's lower corner and r the resolution.
pub open spec fn cell_indices(resolution: int, x: int, y: int) -> Seq<u16> {
    let v = x + y * resolution;
    seq![
        v as u16,
        (v + resolution + 1) as u16,
        (v + resolution) as u16,
        v as u16,
        (v + 1) as u16,
        (v + resolution + 1) as u16,
    ]
}

/// Position of the first index of cell (x, y) in the index list of a grid with
/// `cells` cells per row.
pub open spec fn cell_start(cells: int, x: int, y: int) -> int {
    6 * (y * cells + x)
}

proof fn lemma_cell_order(cells: int, x1: int, y1: int, x2: int, y2: int)
    requires
        0 <= x1 < cells,
        0 <= x2 < cells,
        0 <= y1,
        0 <= y2,
        y1 < y2 || (y1 == y2 && x1 < x2),
    ensures
        cell_start(cells, x1, y1) + 6 <= cell_start(cells, x2, y2),
{
    if y1 < y2 {
        assert(y1 * cells + cells <= y2 * cells) by (nonlinear_arith)
            requires
                y1 < y2,
                0 <= cells,
        ;
    }
}

/// The lowest corner of every cell and the two above it are numbered below
/// r * r, so they fit in 16 bits when r * r <= 2^16.
proof fn lemma_cell_corner_bound(resolution: int, x: int, y: int)
    requires
        0 <= x < resolution - 1,
        0 <= y < resolution - 1,
    ensures
        x + y * resolution + resolution + 1 < resolution * resolution,
        0 <= y * resolution,
{
    assert(y * resolution + resolution <= (resolution - 1) * resolution) by (nonlinear_arith)
        requires
            y < resolution - 1,
            0 <= y,
    ;
    assert((resolution - 1) * resolution == resolution * resolution - resolution) by (
    nonlinear_arith);
    assert(0 <= y * resolution) by (nonlinear_arith)
        requires
            0 <= y,
            0 <= resolution,
    ;
}

/// The index list of a square grid of `resolution` by `resolution` vertices
/// numbered row by row: the two triangles of every cell, cells taken row by
/// row.
pub fn grid_indices(resolution: usize) -> (indices: Vec<u16>)
    requires
        1 <= resolution,
        resolution * resolution <= 65536,
    ensures
        indices.len() == 6 * (resolution - 1) * (resolution - 1),
        forall|x: int, y: int, k: int|
            0 <= x < resolution - 1 && 0 <= y < resolution - 1 && 0 <= k < 6 ==> indices@[#[trigger] cell_start(
                resolution - 1,
                x,
                y,
            ) + k] == #[trigger] cell_indices(resolution as int, x, y)[k],
{
    let ghost cells: int = resolution - 1;
    let mut indices: Vec<u16> = Vec::new();
    let mut y: usize = 0;
    assert(cell_start(cells, 0, 0) == 0) by (nonlinear_arith);
    while y < resolution
        invariant
            1 <= resolution,
            resolution * resolution <= 65536,
            cells == resolution - 1,
            y <= resolution,
            indices.len() == cell_start(cells, 0, if y < cells { y as int } else { cells }),
            forall|xx: int, yy: int, k: int|
                0 <= xx < cells && 0 <= yy < y && yy < cells && 0 <= k < 6 ==> indices@[#[trigger] cell_start(
                    cells,
                    xx,
                    yy,
                ) + k] == #[trigger] cell_indices(resolution as int, xx, yy)[k],
        decreases resolution - y,
    {
        let mut x: usize = 0;
        while x < resolution
            invariant
                1 <= resolution,
                resolution * resolution <= 65536,
                cells == resolution - 1,
                y < resolution,
                x <= resolution,
                indices.len() == if y < cells {
                    cell_start(cells, if x < cells { x as int } else { cells }, y as int)
                } else {
                    cell_start(cells, 0, cells)
                },
                forall|xx: int, yy: int, k: int|
                    0 <= xx < cells && 0 <= yy < cells && 0 <= k < 6 && (yy < y || (yy == y && xx
                        < x)) ==> indices@[#[trigger] cell_start(cells, xx, yy) + k]
                        == #[trigger] cell_indices(resolution as int, xx, yy)[k],
            decreases resolution - x,
        {
            if x != resolution - 1 && y != resolution - 1 {
                proof {
                    lemma_cell_corner_bound(resolution as int, x as int, y as int);
                }
                let vertex_index: usize = x + y * resolution;
                let ghost before = indices@;
                indices.push(vertex_index as u16);
                indices.push((vertex_index + resolution + 1) as u16);
                indices.push((vertex_index + resolution) as u16);
                indices.push(vertex_index as u16);
                indices.push((vertex_index + 1) as u16);
                indices.push((vertex_index + resolution + 1) as u16);
                proof {
                    assert forall|xx: int, yy: int, k: int|
                        0 <= xx < cells && 0 <= yy < cells && 0 <= k < 6 && (yy < y || (yy == y
                            && xx < x + 1)) implies indices@[#[trigger] cell_start(cells, xx, yy) + k]
                        == #[trigger] cell_indices(resolution as int, xx, yy)[k] by {
                        if yy == y && xx == x {
                        } else {
                            lemma_cell_order(cells, xx, yy, x as int, y as int);
                        }
                    }
                    assert(cell_start(cells, x + 1, y as int) == cell_start(cells, x as int, y as int) + 6);
                }
            }
            x = x + 1;
        }
        proof {
            if y < cells {
                assert(cell_start(cells, cells, y as int) == cell_start(cells, 0, y + 1)) by (nonlinear_arith)
                    requires 0 <= cells;
            }
        }
        y = y + 1;
    }
    proof {
        assert(cell_start(cells, 0, cells) == 6 * (resolution - 1) * (resolution - 1)) by (nonlinear_arith)
            requires cells == resolution - 1;
    }
    indices
}

/// The grid corners of the two triangles of every cell of a grid of `rows` by
/// `cols` cells, cells taken row by row.  Corner `k` of cell (row i, column j)
/// is (i + pattern[k].0, j + pattern[k].1).
pub fn triangulate_cells(rows: usize, cols: usize, pattern: [(usize, usize); 6]) -> (corners: Vec<
    (usize, usize),
>)
    requires
        forall|k: int| 0 <= k < 6 ==> #[trigger] pattern@[k].0 <= 1 && pattern@[k].1 <= 1,
        rows + 1 <= usize::MAX,
        cols + 1 <= usize::MAX,
        6 * rows * cols <= usize::MAX,
    ensures
        corners.len() == 6 * rows * cols,
        forall|i: int, j: int, k: int|
            0 <= i < rows && 0 <= j < cols && 0 <= k < 6 ==> corners@[#[trigger] cell_start(
                cols as int,
                j,
                i,
            ) + k] == (#[trigger] cell_corner(pattern@[k], i, j)),
{
    let mut corners: Vec<(usize, usize)> = Vec::new();
    let mut i: usize = 0;
    assert(cell_start(cols as int, 0, 0) == 0) by (nonlinear_arith);
    while i < rows
        invariant
            i <= rows,
            rows + 1 <= usize::MAX,
            cols + 1 <= usize::MAX,
            6 * rows * cols <= usize::MAX,
            forall|k: int| 0 <= k < 6 ==> #[trigger] pattern@[k].0 <= 1 && pattern@[k].1 <= 1,
            corners.len() == cell_start(cols as int, 0, i as int),
            forall|ii: int, jj: int, k: int|
                0 <= ii < i && 0 <= jj < cols && 0 <= k < 6 ==> corners@[#[trigger] cell_start(
                    cols as int,
                    jj,
                    ii,
                ) + k] == (#[trigger] cell_corner(pattern@[k], ii, jj)),
        decreases rows - i,
    {
        let mut j: usize = 0;
        while j < cols
            invariant
                i < rows,
                j <= cols,
                rows + 1 <= usize::MAX,
                cols + 1 <= usize::MAX,
                6 * rows * cols <= usize::MAX,
                forall|k: int| 0 <= k < 6 ==> #[trigger] pattern@[k].0 <= 1 && pattern@[k].1 <= 1,
                corners.len() == cell_start(cols as int, j as int, i as int),
                forall|ii: int, jj: int, k: int|
                    0 <= ii < rows && 0 <= jj < cols && 0 <= k < 6 && (ii < i || (ii == i && jj
                        < j)) ==> corners@[#[trigger] cell_start(cols as int, jj, ii) + k] == (
                    #[trigger] cell_corner(pattern@[k], ii, jj)),
            decreases cols - j,
        {
            let mut k: usize = 0;
            let ghost before = corners@;
            while k < 6
                invariant
                    i < rows,
                    j < cols,
                    k <= 6,
                    rows + 1 <= usize::MAX,
                    cols + 1 <= usize::MAX,
                    forall|kk: int| 0 <= kk < 6 ==> #[trigger] pattern@[kk].0 <= 1 && pattern@[kk].1 <= 1,
                    corners@.len() == before.len() + k,
                    forall|m: int| 0 <= m < before.len() ==> corners@[m] == before[m],
                    forall|kk: int| 0 <= kk < k ==> corners@[before.len() + kk] == #[trigger] cell_corner(pattern@[kk], i as int, j as int),
                decreases 6 - k,
            {
                let offset = pattern[k];
                corners.push((i + offset.0, j + offset.1));
                k = k + 1;
            }
            proof {
                assert forall|ii: int, jj: int, kk: int|
                    0 <= ii < rows && 0 <= jj < cols && 0 <= kk < 6 && (ii < i || (ii == i && jj
                        < j + 1)) implies corners@[#[trigger] cell_start(cols as int, jj, ii) + kk] == (
                    #[trigger] cell_corner(pattern@[kk], ii, jj)) by {
                    if ii == i && jj == j {
                    } else {
                        lemma_cell_order(cols as int, jj, ii, j as int, i as int);
                    }
                }
            }
            j = j + 1;
        }
        proof {
            assert(cell_start(cols as int, cols as int, i as int) == cell_start(cols as int, 0, i + 1)) by (nonlinear_arith);
        }
        i = i + 1;
    }
    proof {
        assert(cell_start(cols as int, 0, rows as int) == 6 * rows * cols) by (nonlinear_arith);
    }
    corners
}

/// Grid corner (i + offset.0, j + offset.1).
pub open spec fn cell_corner(offset: (usize, usize), i: int, j: int) -> (usize, usize) {
    ((i + offset.0) as usize, (j + offset.1) as usize)
}

/// Every index of a grid's cells names a vertex of the grid, and the
/// corners of cell (x, y) are the grid points (x, y), (x + 1, y),
/// (x, y + 1) and (x + 1, y + 1).
pub proof fn lemma_cell_indices_in_grid(resolution: int, x: int, y: int)
    requires
        1 <= resolution,
        resolution * resolution <= 65536,
        0 <= x < resolution - 1,
        0 <= y < resolution - 1,
    ensures
        forall|k: int| 0 <= k < 6 ==> #[trigger] cell_indices(resolution, x, y)[k] < resolution * resolution,
        cell_indices(resolution, x, y)[0] == x + y * resolution,
        cell_indices(resolution, x, y)[4] == (x + 1) + y * resolution,
        cell_indices(resolution, x, y)[2] == x + (y + 1) * resolution,
        cell_indices(resolution, x, y)[1] == (x + 1) + (y + 1) * resolution,
{
    lemma_cell_corner_bound(resolution, x, y);
    assert((y + 1) * resolution == y * resolution + resolution) by (nonlinear_arith);
}

/// The two triangles of grid cell (x, y), whose lower corner is vertex
/// v = x + y * r, are exactly (v, v + r + 1, v + r) and (v, v + 1, v + r + 1):
/// every index is one of the cell's four corners, and both triangles start
/// at the lower corner and share the diagonal from it to the opposite
/// corner.
pub proof fn lemma_cell_triangles(resolution: int, x: int, y: int)
    requires
        1 <= resolution,
        resolution * resolution <= 65536,
        0 <= x < resolution - 1,
        0 <= y < resolution - 1,
    ensures
        ({
            let v = x + y * resolution;
            let t = cell_indices(resolution, x, y);
            &&& t.len() == 6
            &&& t[0] == v && t[1] == v + resolution + 1 && t[2] == v + resolution
            &&& t[3] == v && t[4] == v + 1 && t[5] == v + resolution + 1
        }),
        forall|k: int|
            0 <= k < 6 ==> {
                let c = #[trigger] cell_indices(resolution, x, y)[k];
                ||| c == x + y * resolution
                ||| c == x + 1 + y * resolution
                ||| c == x + (y + 1) * resolution
                ||| c == x + 1 + (y + 1) * resolution
            },
{
    lemma_cell_corner_bound(resolution, x, y);
    assert((y + 1) * resolution == y * resolution + resolution) by (nonlinear_arith);
}

} // verus!
