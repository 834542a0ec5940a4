//! Vertex layouts of the primitive meshes.
//!
//! The layouts are integer data: which grid corner or which cube corner each
//! vertex stands for.  Turning a corner into a position in space is left to
//! the caller.

use vstd::prelude::*;
use crate::mesh::{
    cell_corner, cell_indices, cell_start, grid_indices, sequential_indices, triangulate_cells, wrap16,
    MeshData,
};

verus! {

/// Corner offsets, within a cell, of the triangles (p0, p1, p3) and
/// (p1, p2, p3) of a sphere cell, where p0 = (i, j), p1 = (i + 1, j),
/// p2 = (i + 1, j + 1) and p3 = (i, j + 1).
pub open spec fn sphere_cell_offsets() -> Seq<(usize, usize)> {
    seq![(0, 0), (1, 0), (0, 1), (1, 0), (1, 1), (0, 1)]
}

/// Corner offsets, within a cell, of the triangles (v0, v1, v2) and
/// (v2, v3, v0) of a surface cell, where v0 = (i, j), v1 = (i, j + 1),
/// v2 = (i + 1, j + 1) and v3 = (i + 1, j).
pub open spec fn surface_cell_offsets() -> Seq<(usize, usize)> {
    seq![(0, 0), (0, 1), (1, 1), (1, 1), (1, 0), (0, 0)]
}

/// `mesh` lists the triangles of a grid of `rows` by `cols` cells, cell by
/// cell and row by row, with corner `k` of each cell at `offsets[k]`, and
/// indexes every vertex on its own.
pub open spec fn is_cell_mesh(
    mesh: MeshData<(usize, usize)>,
    rows: int,
    cols: int,
    offsets: Seq<(usize, usize)>,
) -> bool {
    &&& mesh.vertices.len() == 6 * rows * cols
    &&& forall|i: int, j: int, k: int|
        0 <= i < rows && 0 <= j < cols && 0 <= k < 6 ==> mesh.vertices@[#[trigger] cell_start(
            cols,
            j,
            i,
        ) + k] == (#[trigger] cell_corner(offsets[k], i, j))
    &&& mesh.indices.len() == mesh.vertices.len()
    &&& forall|i: int| 0 <= i < mesh.indices.len() ==> #[trigger] mesh.indices@[i] == wrap16(i)
}

/// The UV sphere of `u` rings by `v` segments: each vertex is the grid corner
/// (ring, segment) it stands for, two triangles per cell of the
/// (u - 1) by (v - 1) cells.
pub fn sphere_data(u: usize, v: usize) -> (mesh: MeshData<(usize, usize)>)
    requires
        1 <= u,
        1 <= v,
        6 * (u - 1) * (v - 1) <= usize::MAX,
    ensures
        is_cell_mesh(mesh, u - 1, v - 1, sphere_cell_offsets()),
{
    let pattern: [(usize, usize); 6] = [(0, 0), (1, 0), (0, 1), (1, 0), (1, 1), (0, 1)];
    assert(pattern@ =~= sphere_cell_offsets());
    let vertices = triangulate_cells(u - 1, v - 1, pattern);
    let indices = sequential_indices(vertices.len());
    MeshData { vertices, indices }
}

/// Number of grid points along each side of the wavy surface.
pub const SURFACE_GRID_COUNT: usize = 30;

/// The wavy surface over a grid of 30 by 30 points: each vertex is the grid
/// point (i, j) it stands for, two triangles per cell of the 29 by 29 cells.
pub fn surface_data() -> (mesh: MeshData<(usize, usize)>)
    ensures
        is_cell_mesh(mesh, 29, 29, surface_cell_offsets()),
{
    let pattern: [(usize, usize); 6] = [(0, 0), (0, 1), (1, 1), (1, 1), (1, 0), (0, 0)];
    assert(pattern@ =~= surface_cell_offsets());
    let vertices = triangulate_cells(SURFACE_GRID_COUNT - 1, SURFACE_GRID_COUNT - 1, pattern);
    let indices = sequential_indices(vertices.len());
    MeshData { vertices, indices }
}

/// The vertices of a square grid of `resolution` by `resolution` points,
/// row by row: vertex x + y * resolution is the point (x, y).
pub fn grid_vertices(resolution: usize) -> (points: Vec<(usize, usize)>)
    requires
        resolution * resolution <= usize::MAX,
    ensures
        points.len() == resolution * resolution,
        forall|x: int, y: int|
            0 <= x < resolution && 0 <= y < resolution ==> points@[#[trigger] (x + y * resolution)]
                == (x as usize, y as usize),
{
    let mut points: Vec<(usize, usize)> = Vec::new();
    let mut y: usize = 0;
    assert(0 * resolution == 0) by (nonlinear_arith);
    while y < resolution
        invariant
            y <= resolution,
            resolution * resolution <= usize::MAX,
            points.len() == y * resolution,
            forall|xx: int, yy: int|
                0 <= xx < resolution && 0 <= yy < y ==> points@[#[trigger] (xx + yy * resolution)]
                    == (xx as usize, yy as usize),
        decreases resolution - y,
    {
        let mut x: usize = 0;
        while x < resolution
            invariant
                y < resolution,
                x <= resolution,
                resolution * resolution <= usize::MAX,
                points.len() == y * resolution + x,
                forall|xx: int, yy: int|
                    0 <= xx < resolution && 0 <= yy < resolution && (yy < y || (yy == y && xx < x))
                        ==> points@[#[trigger] (xx + yy * resolution)] == (xx as usize, yy as usize),
            decreases resolution - x,
        {
            let ghost before = points@;
            points.push((x, y));
            proof {
                assert forall|xx: int, yy: int|
                    0 <= xx < resolution && 0 <= yy < resolution && (yy < y || (yy == y && xx < x
                        + 1)) implies points@[#[trigger] (xx + yy * resolution)] == (
                    xx as usize,
                    yy as usize,
                ) by {
                    if yy < y {
                        assert(yy * resolution + resolution <= y * resolution) by (nonlinear_arith)
                            requires
                                yy < y,
                                0 <= resolution,
                        ;
                        assert(points@[xx + yy * resolution] == before[xx + yy * resolution]);
                    } else if xx < x {
                        assert(points@[xx + yy * resolution] == before[xx + yy * resolution]);
                    }
                }
            }
            x = x + 1;
        }
        proof {
            assert((y + 1) * resolution == y * resolution + resolution) by (nonlinear_arith);
        }
        y = y + 1;
    }
    points
}

/// One face of the cube sphere as a grid of `resolution` by `resolution`
/// points: each vertex is the grid point (x, y) it stands for, numbered row by
/// row, and every cell is drawn as the two triangles of `grid_indices`.
pub fn create_face(resolution: usize) -> (mesh: MeshData<(usize, usize)>)
    requires
        1 <= resolution,
        resolution * resolution <= 65536,
    ensures
        mesh.vertices.len() == resolution * resolution,
        forall|x: int, y: int|
            0 <= x < resolution && 0 <= y < resolution ==> mesh.vertices@[#[trigger] (x + y
                * resolution)] == (x as usize, y as usize),
        mesh.indices.len() == 6 * (resolution - 1) * (resolution - 1),
        forall|x: int, y: int, k: int|
            0 <= x < resolution - 1 && 0 <= y < resolution - 1 && 0 <= k < 6 ==> mesh.indices@[
            #[trigger] cell_start(resolution - 1, x, y) + k] == #[trigger] cell_indices(
                resolution as int,
                x,
                y,
            )[k],
{
    let vertices = grid_vertices(resolution);
    let indices = grid_indices(resolution);
    MeshData { vertices, indices }
}

/// The corners of a unit cell.
pub open spec fn is_cell_corner(offset: (usize, usize)) -> bool {
    offset.0 <= 1 && offset.1 <= 1
}

/// The two triangles of a sphere cell and of a surface cell each use only
/// corners of the cell, use all four corners between them, and share the
/// two corners of one diagonal.
pub proof fn lemma_cell_patterns_cover_cells()
    ensures
        forall|k: int| 0 <= k < 6 ==> is_cell_corner(#[trigger] sphere_cell_offsets()[k]),
        forall|k: int| 0 <= k < 6 ==> is_cell_corner(#[trigger] surface_cell_offsets()[k]),
        forall|c: (usize, usize)|
            is_cell_corner(c) ==> #[trigger] sphere_cell_offsets().contains(c)
                && surface_cell_offsets().contains(c),
        sphere_cell_offsets().subrange(0, 3).contains((1, 0)) && sphere_cell_offsets().subrange(
            3,
            6,
        ).contains((1, 0)),
        sphere_cell_offsets().subrange(0, 3).contains((0, 1)) && sphere_cell_offsets().subrange(
            3,
            6,
        ).contains((0, 1)),
        surface_cell_offsets().subrange(0, 3).contains((0, 0)) && surface_cell_offsets().subrange(
            3,
            6,
        ).contains((0, 0)),
        surface_cell_offsets().subrange(0, 3).contains((1, 1)) && surface_cell_offsets().subrange(
            3,
            6,
        ).contains((1, 1)),
{
    let sp = sphere_cell_offsets();
    let su = surface_cell_offsets();
    assert forall|c: (usize, usize)| is_cell_corner(c) implies #[trigger] sp.contains(c)
        && su.contains(c) by {
        if c == (0usize, 0usize) {
            assert(sp[0] == c && su[0] == c);
        } else if c == (1usize, 0usize) {
            assert(sp[1] == c && su[4] == c);
        } else if c == (0usize, 1usize) {
            assert(sp[2] == c && su[1] == c);
        } else {
            assert(sp[4] == c && su[2] == c);
        }
    }
    assert(sp.subrange(0, 3)[1] == (1usize, 0usize));
    assert(sp.subrange(3, 6)[0] == (1usize, 0usize));
    assert(sp.subrange(0, 3)[2] == (0usize, 1usize));
    assert(sp.subrange(3, 6)[2] == (0usize, 1usize));
    assert(su.subrange(0, 3)[0] == (0usize, 0usize));
    assert(su.subrange(3, 6)[2] == (0usize, 0usize));
    assert(su.subrange(0, 3)[2] == (1usize, 1usize));
    assert(su.subrange(3, 6)[0] == (1usize, 1usize));
}

} // verus!
