//! The unit cube: six faces of two triangles each, every vertex listed on its
//! own with the position, the outward normal and the texture coordinates of
//! that face corner.  All of these are small integers.

use vstd::prelude::*;
use crate::mesh::{sequential_indices, wrap16, MeshData};

verus! {

/// An integer vector in three dimensions.
pub type Int3 = (i32, i32, i32);

/// An integer vector in two dimensions.
pub type Int2 = (i32, i32);

/// One vertex of the cube.
#[derive(PartialEq, Eq, Clone, Copy, Debug)]
pub struct CubeVertex {
    pub position: Int3,
    pub normal: Int3,
    pub uv: Int2,
}

/// The integer vector (x, y, z).
pub open spec fn v3(x: int, y: int, z: int) -> Int3 {
    (x as i32, y as i32, z as i32)
}

/// The integer vector (u, v).
pub open spec fn v2(u: int, v: int) -> Int2 {
    (u as i32, v as i32)
}

/// Number of vertices of the cube: six faces of two triangles.
pub const CUBE_VERTEX_COUNT: usize = 36;

/// Corner positions, three per triangle, faces in the order front (+z),
/// right (+x), back (-z), left (-x), top (+y), bottom (-y).
pub open spec fn cube_position_table() -> Seq<Int3> {
    seq![
        // front
        v3(-1, -1, 1), v3(1, -1, 1), v3(-1, 1, 1), v3(-1, 1, 1), v3(1, -1, 1), v3(1, 1, 1),
        // right
        v3(1, -1, 1), v3(1, -1, -1), v3(1, 1, 1), v3(1, 1, 1), v3(1, -1, -1), v3(1, 1, -1),
        // back
        v3(1, -1, -1), v3(-1, -1, -1), v3(1, 1, -1), v3(1, 1, -1), v3(-1, -1, -1), v3(-1, 1, -1),
        // left
        v3(-1, -1, -1), v3(-1, -1, 1), v3(-1, 1, -1), v3(-1, 1, -1), v3(-1, -1, 1), v3(-1, 1, 1),
        // top
        v3(-1, 1, 1), v3(1, 1, 1), v3(-1, 1, -1), v3(-1, 1, -1), v3(1, 1, 1), v3(1, 1, -1),
        // bottom
        v3(-1, -1, -1), v3(1, -1, -1), v3(-1, -1, 1), v3(-1, -1, 1), v3(1, -1, -1), v3(1, -1, 1),
    ]
}

/// The outward normal of each vertex's face.
pub open spec fn cube_normal_table() -> Seq<Int3> {
    seq![
        // front
        v3(0, 0, 1), v3(0, 0, 1), v3(0, 0, 1), v3(0, 0, 1), v3(0, 0, 1), v3(0, 0, 1),
        // right
        v3(1, 0, 0), v3(1, 0, 0), v3(1, 0, 0), v3(1, 0, 0), v3(1, 0, 0), v3(1, 0, 0),
        // back
        v3(0, 0, -1), v3(0, 0, -1), v3(0, 0, -1), v3(0, 0, -1), v3(0, 0, -1), v3(0, 0, -1),
        // left
        v3(-1, 0, 0), v3(-1, 0, 0), v3(-1, 0, 0), v3(-1, 0, 0), v3(-1, 0, 0), v3(-1, 0, 0),
        // top
        v3(0, 1, 0), v3(0, 1, 0), v3(0, 1, 0), v3(0, 1, 0), v3(0, 1, 0), v3(0, 1, 0),
        // bottom
        v3(0, -1, 0), v3(0, -1, 0), v3(0, -1, 0), v3(0, -1, 0), v3(0, -1, 0), v3(0, -1, 0),
    ]
}

/// Texture coordinates of each vertex.
pub open spec fn cube_uv_table() -> Seq<Int2> {
    seq![
        // front
        v2(0, 0), v2(1, 0), v2(0, 1), v2(0, 1), v2(1, 0), v2(1, 1),
        // right
        v2(0, 1), v2(0, 0), v2(1, 1), v2(1, 1), v2(0, 0), v2(1, 0),
        // back
        v2(0, 1), v2(1, 1), v2(0, 0), v2(0, 0), v2(1, 1), v2(1, 0),
        // left
        v2(1, 1), v2(1, 0), v2(0, 1), v2(0, 1), v2(1, 0), v2(0, 0),
        // top
        v2(0, 1), v2(1, 1), v2(0, 0), v2(0, 0), v2(1, 1), v2(1, 0),
        // bottom
        v2(1, 1), v2(0, 1), v2(1, 0), v2(1, 0), v2(0, 1), v2(0, 0),
    ]
}

/// The positions of the 36 cube vertices.
pub fn cube_positions() -> (positions: Vec<Int3>)
    ensures
        positions@ == cube_position_table(),
{
    let positions: Vec<Int3> = vec![
        // front
        (-1, -1, 1), (1, -1, 1), (-1, 1, 1), (-1, 1, 1), (1, -1, 1), (1, 1, 1),
        // right
        (1, -1, 1), (1, -1, -1), (1, 1, 1), (1, 1, 1), (1, -1, -1), (1, 1, -1),
        // back
        (1, -1, -1), (-1, -1, -1), (1, 1, -1), (1, 1, -1), (-1, -1, -1), (-1, 1, -1),
        // left
        (-1, -1, -1), (-1, -1, 1), (-1, 1, -1), (-1, 1, -1), (-1, -1, 1), (-1, 1, 1),
        // top
        (-1, 1, 1), (1, 1, 1), (-1, 1, -1), (-1, 1, -1), (1, 1, 1), (1, 1, -1),
        // bottom
        (-1, -1, -1), (1, -1, -1), (-1, -1, 1), (-1, -1, 1), (1, -1, -1), (1, -1, 1),
    ];
    assert(positions@ =~= cube_position_table());
    positions
}

/// The normals of the 36 cube vertices.
pub fn cube_normals() -> (normals: Vec<Int3>)
    ensures
        normals@ == cube_normal_table(),
{
    let normals: Vec<Int3> = vec![
        // front
        (0, 0, 1), (0, 0, 1), (0, 0, 1), (0, 0, 1), (0, 0, 1), (0, 0, 1),
        // right
        (1, 0, 0), (1, 0, 0), (1, 0, 0), (1, 0, 0), (1, 0, 0), (1, 0, 0),
        // back
        (0, 0, -1), (0, 0, -1), (0, 0, -1), (0, 0, -1), (0, 0, -1), (0, 0, -1),
        // left
        (-1, 0, 0), (-1, 0, 0), (-1, 0, 0), (-1, 0, 0), (-1, 0, 0), (-1, 0, 0),
        // top
        (0, 1, 0), (0, 1, 0), (0, 1, 0), (0, 1, 0), (0, 1, 0), (0, 1, 0),
        // bottom
        (0, -1, 0), (0, -1, 0), (0, -1, 0), (0, -1, 0), (0, -1, 0), (0, -1, 0),
    ];
    assert(normals@ =~= cube_normal_table());
    normals
}

/// The texture coordinates of the 36 cube vertices.
pub fn cube_uvs() -> (uvs: Vec<Int2>)
    ensures
        uvs@ == cube_uv_table(),
{
    let uvs: Vec<Int2> = vec![
        // front
        (0, 0), (1, 0), (0, 1), (0, 1), (1, 0), (1, 1),
        // right
        (0, 1), (0, 0), (1, 1), (1, 1), (0, 0), (1, 0),
        // back
        (0, 1), (1, 1), (0, 0), (0, 0), (1, 1), (1, 0),
        // left
        (1, 1), (1, 0), (0, 1), (0, 1), (1, 0), (0, 0),
        // top
        (0, 1), (1, 1), (0, 0), (0, 0), (1, 1), (1, 0),
        // bottom
        (1, 1), (0, 1), (1, 0), (1, 0), (0, 1), (0, 0),
    ];
    assert(uvs@ =~= cube_uv_table());
    uvs
}

/// The cube vertex that lists position, normal and texture coordinates `i` of
/// the tables.
pub open spec fn cube_vertex(i: int) -> CubeVertex {
    CubeVertex {
        position: cube_position_table()[i],
        normal: cube_normal_table()[i],
        uv: cube_uv_table()[i],
    }
}

/// The cube: its 36 vertices, each with the position, normal and texture
/// coordinates of the tables, and the indices 0 to 35.
pub fn get_cube_mesh_data() -> (mesh: MeshData<CubeVertex>)
    ensures
        mesh.vertices.len() == CUBE_VERTEX_COUNT,
        forall|i: int| 0 <= i < CUBE_VERTEX_COUNT ==> #[trigger] mesh.vertices@[i] == cube_vertex(i),
        mesh.indices.len() == CUBE_VERTEX_COUNT,
        forall|i: int| 0 <= i < CUBE_VERTEX_COUNT ==> #[trigger] mesh.indices@[i] == i,
{
    let positions = cube_positions();
    let normals = cube_normals();
    let uvs = cube_uvs();
    let mut vertices: Vec<CubeVertex> = Vec::new();
    let mut i: usize = 0;
    while i < positions.len()
        invariant
            positions@ == cube_position_table(),
            normals@ == cube_normal_table(),
            uvs@ == cube_uv_table(),
            i <= positions.len(),
            vertices.len() == i,
            forall|j: int| 0 <= j < i ==> #[trigger] vertices@[j] == cube_vertex(j),
        decreases positions.len() - i,
    {
        vertices.push(CubeVertex { position: positions[i], normal: normals[i], uv: uvs[i] });
        i = i + 1;
    }
    let indices = sequential_indices(positions.len());
    proof {
        assert forall|i: int| 0 <= i < CUBE_VERTEX_COUNT implies #[trigger] indices@[i] == i by {
            assert(wrap16(i) == i);
        }
    }
    MeshData { vertices, indices }
}

/// Dot product.
pub open spec fn dot(a: Int3, b: Int3) -> int {
    a.0 * b.0 + a.1 * b.1 + a.2 * b.2
}

/// `b - a`.
pub open spec fn edge(a: Int3, b: Int3) -> (int, int, int) {
    (b.0 - a.0, b.1 - a.1, b.2 - a.2)
}

/// Cross product.
pub open spec fn cross(a: (int, int, int), b: (int, int, int)) -> (int, int, int) {
    (a.1 * b.2 - a.2 * b.1, a.2 * b.0 - a.0 * b.2, a.0 * b.1 - a.1 * b.0)
}

/// Triangle `t` of the cube, vertices 3t, 3t + 1 and 3t + 2, turns
/// counterclockwise about its outward normal and has twice the area of a
/// unit square: its edge vectors' cross product is 4 times the normal.
pub open spec fn cube_triangle_faces_out(t: int) -> bool {
    let p = cube_position_table();
    let n = cube_normal_table()[3 * t];
    cross(edge(p[3 * t], p[3 * t + 1]), edge(p[3 * t], p[3 * t + 2])) == (
        4 * n.0,
        4 * n.1,
        4 * n.2,
    )
}

/// Every vertex of face `f` has the face's normal, lies in the face's plane
/// (at distance 1 from the centre along the normal) and has texture
/// coordinates 0 or 1.
pub open spec fn cube_face_is_flat(f: int) -> bool {
    forall|k: int|
        #![trigger cube_normal_table()[6 * f + k]]
        0 <= k < 6 ==> {
            let i = 6 * f + k;
            &&& cube_normal_table()[i] == cube_normal_table()[6 * f]
            &&& dot(cube_position_table()[i], cube_normal_table()[i]) == 1
            &&& 0 <= cube_uv_table()[i].0 <= 1
            &&& 0 <= cube_uv_table()[i].1 <= 1
        }
}

/// The outward normal of face `f`: front (+z), right (+x), back (-z),
/// left (-x), top (+y), bottom (-y).
pub open spec fn face_normal(f: int) -> Int3 {
    seq![v3(0, 0, 1), v3(1, 0, 0), v3(0, 0, -1), v3(-1, 0, 0), v3(0, 1, 0), v3(0, -1, 0)][f]
}

/// Corner `c` of the texture square: (0, 0), (1, 0), (0, 1), (1, 1).
pub open spec fn uv_corner(c: int) -> Int2 {
    seq![v2(0, 0), v2(1, 0), v2(0, 1), v2(1, 1)][c]
}

/// The position of face `f`'s corner that shows texture corner `t`.
pub open spec fn face_corner_position(f: int, t: Int2) -> Int3 {
    let corners = seq![
        // front
        seq![v3(-1, -1, 1), v3(1, -1, 1), v3(-1, 1, 1), v3(1, 1, 1)],
        // right
        seq![v3(1, -1, -1), v3(1, 1, -1), v3(1, -1, 1), v3(1, 1, 1)],
        // back
        seq![v3(1, 1, -1), v3(-1, 1, -1), v3(1, -1, -1), v3(-1, -1, -1)],
        // left
        seq![v3(-1, 1, 1), v3(-1, -1, 1), v3(-1, 1, -1), v3(-1, -1, -1)],
        // top
        seq![v3(-1, 1, -1), v3(1, 1, -1), v3(-1, 1, 1), v3(1, 1, 1)],
        // bottom
        seq![v3(1, -1, 1), v3(-1, -1, 1), v3(1, -1, -1), v3(-1, -1, -1)],
    ];
    corners[f][t.0 + 2 * t.1]
}

/// Vertex `i`: every coordinate of its position is 1 or -1, its normal is
/// that of its face, it lies on its face (position dot normal is 1), its
/// texture coordinates are 0 or 1, and its position is the corner of its
/// face that shows those texture coordinates.
pub open spec fn cube_vertex_sound(i: int) -> bool {
    let p = cube_position_table()[i];
    let n = cube_normal_table()[i];
    let t = cube_uv_table()[i];
    &&& p.0 == 1 || p.0 == -1
    &&& p.1 == 1 || p.1 == -1
    &&& p.2 == 1 || p.2 == -1
    &&& n == face_normal(i / 6)
    &&& dot(p, n) == 1
    &&& t.0 == 0 || t.0 == 1
    &&& t.1 == 0 || t.1 == 1
    &&& p == face_corner_position(i / 6, t)
}

/// On face `f`, texture corner `c` is shown at vertex 6f + k for some k, and
/// distinct texture corners sit at distinct positions.
pub open spec fn face_texture_sound(f: int) -> bool {
    &&& forall|c: int|
        #![trigger uv_corner(c)]
        0 <= c < 4 ==> exists|k: int|
            0 <= k < 6 && #[trigger] cube_uv_table()[6 * f + k] == uv_corner(c)
    &&& forall|c: int, d: int|
        0 <= c < 4 && 0 <= d < 4 && #[trigger] face_corner_position(f, uv_corner(c))
            == #[trigger] face_corner_position(f, uv_corner(d)) ==> c == d
}

/// Vertices 0 to `n - 1` are sound.
spec fn vertices_sound_below(n: int) -> bool
    decreases n,
{
    n <= 0 || (vertices_sound_below(n - 1) && cube_vertex_sound(n - 1))
}

proof fn lemma_vertices_sound_below(n: int)
    requires
        vertices_sound_below(n),
    ensures
        forall|i: int| 0 <= i < n ==> #[trigger] cube_vertex_sound(i),
    decreases n,
{
    if n > 0 {
        lemma_vertices_sound_below(n - 1);
    }
}

/// The cube tables describe a cube: every vertex position has coordinates
/// 1 or -1; the normals are constant on each face, in the order front (+z),
/// right (+x), back (-z), left (-x), top (+y), bottom (-y); every vertex lies
/// on its face; texture coordinates are 0 or 1; and on each face the
/// distinct corners are mapped one to one onto the four corners of the
/// texture square (two vertices of a face share a position exactly when they
/// share texture coordinates, and every texture corner is shown), so each
/// face shows the whole texture once.
pub proof fn lemma_cube_tables()
    ensures
        cube_position_table().len() == 36,
        cube_normal_table().len() == 36,
        cube_uv_table().len() == 36,
        forall|i: int| 0 <= i < 36 ==> #[trigger] cube_vertex_sound(i),
        forall|f: int| 0 <= f < 6 ==> #[trigger] face_texture_sound(f),
        forall|i: int, j: int|
            0 <= i < 36 && 0 <= j < 36 && i / 6 == j / 6 ==> (#[trigger] cube_position_table()[i]
                == #[trigger] cube_position_table()[j] <==> cube_uv_table()[i]
                == cube_uv_table()[j]),
{
    assert(vertices_sound_below(6)) by {
        reveal_with_fuel(vertices_sound_below, 7);
    }
    assert(vertices_sound_below(12)) by {
        reveal_with_fuel(vertices_sound_below, 7);
    }
    assert(vertices_sound_below(18)) by {
        reveal_with_fuel(vertices_sound_below, 7);
    }
    assert(vertices_sound_below(24)) by {
        reveal_with_fuel(vertices_sound_below, 7);
    }
    assert(vertices_sound_below(30)) by {
        reveal_with_fuel(vertices_sound_below, 7);
    }
    assert(vertices_sound_below(36)) by {
        reveal_with_fuel(vertices_sound_below, 7);
    }
    lemma_vertices_sound_below(36);
    assert forall|f: int| 0 <= f < 6 implies #[trigger] face_texture_sound(f) by {
        lemma_face_texture_sound(f);
    }
    assert forall|i: int, j: int|
        0 <= i < 36 && 0 <= j < 36 && i / 6 == j / 6 implies (#[trigger] cube_position_table()[i]
        == #[trigger] cube_position_table()[j] <==> cube_uv_table()[i] == cube_uv_table()[j]) by {
        let f = i / 6;
        let (ti, tj) = (cube_uv_table()[i], cube_uv_table()[j]);
        assert(cube_vertex_sound(i) && cube_vertex_sound(j));
        assert(face_texture_sound(f));
        let ci = ti.0 + 2 * ti.1;
        let cj = tj.0 + 2 * tj.1;
        assert(uv_corner(ci as int) == ti);
        assert(uv_corner(cj as int) == tj);
        if cube_position_table()[i] == cube_position_table()[j] {
            assert(face_corner_position(f, uv_corner(ci as int)) == face_corner_position(
                f,
                uv_corner(cj as int),
            ));
        }
    }
}

/// The vertex of face `f` that shows texture corner `c`.
spec fn corner_vertex(f: int, c: int) -> int {
    seq![
        seq![0int, 1, 2, 5],
        seq![1int, 5, 0, 2],
        seq![2int, 5, 0, 1],
        seq![5int, 1, 2, 0],
        seq![2int, 5, 0, 1],
        seq![5int, 2, 1, 0],
    ][f][c]
}

/// Texture corner `c` of face `f` is shown at `corner_vertex(f, c)`, and its
/// position differs from that of every other texture corner of the face.
spec fn corner_sound(f: int, c: int) -> bool {
    let k = corner_vertex(f, c);
    let p = face_corner_position(f, uv_corner(c));
    &&& 0 <= k < 6
    &&& cube_uv_table()[6 * f + k] == uv_corner(c)
    &&& c == 0 || p != face_corner_position(f, uv_corner(0))
    &&& c == 1 || p != face_corner_position(f, uv_corner(1))
    &&& c == 2 || p != face_corner_position(f, uv_corner(2))
    &&& c == 3 || p != face_corner_position(f, uv_corner(3))
}

/// Corners 0 to `n - 1`, numbered 4f + c, are sound.
spec fn corners_sound_below(n: int) -> bool
    decreases n,
{
    n <= 0 || (corners_sound_below(n - 1) && corner_sound((n - 1) / 4, (n - 1) % 4))
}

proof fn lemma_corners_sound_below(n: int)
    requires
        corners_sound_below(n),
    ensures
        forall|f: int, c: int| 0 <= c < 4 && 0 <= 4 * f + c < n ==> #[trigger] corner_sound(f, c),
    decreases n,
{
    if n > 0 {
        lemma_corners_sound_below(n - 1);
        assert forall|f: int, c: int| 0 <= c < 4 && 0 <= 4 * f + c < n implies #[trigger] corner_sound(f, c) by {
            if 4 * f + c == n - 1 {
                assert((n - 1) / 4 == f && (n - 1) % 4 == c);
            }
        }
    }
}

proof fn lemma_face_texture_sound(f: int)
    requires
        0 <= f < 6,
    ensures
        face_texture_sound(f),
{
    assert(corners_sound_below(24)) by {
        reveal_with_fuel(corners_sound_below, 25);
    }
    lemma_corners_sound_below(24);
    let uv = cube_uv_table();
    assert forall|c: int| 0 <= c < 4 implies exists|k: int|
        0 <= k < 6 && #[trigger] uv[6 * f + k] == #[trigger] uv_corner(c) by {
        assert(corner_sound(f, c));
        let k = corner_vertex(f, c);
        assert(uv[6 * f + k] == uv_corner(c));
    }
    assert forall|c: int, d: int|
        0 <= c < 4 && 0 <= d < 4 && #[trigger] face_corner_position(f, uv_corner(c))
            == #[trigger] face_corner_position(f, uv_corner(d)) implies c == d by {
        assert(corner_sound(f, c));
    }
}

/// The cube is closed under its own description: every face is flat with a
/// single outward normal, and both triangles of every face turn
/// counterclockwise about that normal.
pub proof fn lemma_cube_faces_outward()
    ensures
        forall|f: int| 0 <= f < 6 ==> #[trigger] cube_face_is_flat(f),
        forall|t: int| 0 <= t < 12 ==> #[trigger] cube_triangle_faces_out(t),
{
    lemma_cube_tables();
    assert forall|f: int| 0 <= f < 6 implies #[trigger] cube_face_is_flat(f) by {
        assert forall|k: int| 0 <= k < 6 implies {
            let i = 6 * f + k;
            &&& #[trigger] cube_normal_table()[6 * f + k] == cube_normal_table()[6 * f]
            &&& dot(cube_position_table()[i], cube_normal_table()[i]) == 1
            &&& 0 <= cube_uv_table()[i].0 <= 1
            &&& 0 <= cube_uv_table()[i].1 <= 1
        } by {
            assert(cube_vertex_sound(6 * f + k));
            assert(cube_vertex_sound(6 * f));
            assert((6 * f + k) / 6 == f);
            assert((6 * f) / 6 == f);
        }
    }
    assert forall|t: int| 0 <= t < 12 implies #[trigger] cube_triangle_faces_out(t) by {
        let p = cube_position_table();
        if t == 0 {
            assert(p[0] == v3(-1, -1, 1) && p[1] == v3(1, -1, 1) && p[2] == v3(-1, 1, 1));
            assert(cube_normal_table()[0] == v3(0, 0, 1));
            assert(cross(edge(v3(-1, -1, 1), v3(1, -1, 1)), edge(v3(-1, -1, 1), v3(-1, 1, 1))) == (0int, 0int, 4int)) by (nonlinear_arith);
        } else if t == 1 {
            assert(p[3] == v3(-1, 1, 1) && p[4] == v3(1, -1, 1) && p[5] == v3(1, 1, 1));
            assert(cube_normal_table()[3] == v3(0, 0, 1));
            assert(cross(edge(v3(-1, 1, 1), v3(1, -1, 1)), edge(v3(-1, 1, 1), v3(1, 1, 1))) == (0int, 0int, 4int)) by (nonlinear_arith);
        } else if t == 2 {
            assert(p[6] == v3(1, -1, 1) && p[7] == v3(1, -1, -1) && p[8] == v3(1, 1, 1));
            assert(cube_normal_table()[6] == v3(1, 0, 0));
            assert(cross(edge(v3(1, -1, 1), v3(1, -1, -1)), edge(v3(1, -1, 1), v3(1, 1, 1))) == (4int, 0int, 0int)) by (nonlinear_arith);
        } else if t == 3 {
            assert(p[9] == v3(1, 1, 1) && p[10] == v3(1, -1, -1) && p[11] == v3(1, 1, -1));
            assert(cube_normal_table()[9] == v3(1, 0, 0));
            assert(cross(edge(v3(1, 1, 1), v3(1, -1, -1)), edge(v3(1, 1, 1), v3(1, 1, -1))) == (4int, 0int, 0int)) by (nonlinear_arith);
        } else if t == 4 {
            assert(p[12] == v3(1, -1, -1) && p[13] == v3(-1, -1, -1) && p[14] == v3(1, 1, -1));
            assert(cube_normal_table()[12] == v3(0, 0, -1));
            assert(cross(edge(v3(1, -1, -1), v3(-1, -1, -1)), edge(v3(1, -1, -1), v3(1, 1, -1))) == (0int, 0int, -4int)) by (nonlinear_arith);
        } else if t == 5 {
            assert(p[15] == v3(1, 1, -1) && p[16] == v3(-1, -1, -1) && p[17] == v3(-1, 1, -1));
            assert(cube_normal_table()[15] == v3(0, 0, -1));
            assert(cross(edge(v3(1, 1, -1), v3(-1, -1, -1)), edge(v3(1, 1, -1), v3(-1, 1, -1))) == (0int, 0int, -4int)) by (nonlinear_arith);
        } else if t == 6 {
            assert(p[18] == v3(-1, -1, -1) && p[19] == v3(-1, -1, 1) && p[20] == v3(-1, 1, -1));
            assert(cube_normal_table()[18] == v3(-1, 0, 0));
            assert(cross(edge(v3(-1, -1, -1), v3(-1, -1, 1)), edge(v3(-1, -1, -1), v3(-1, 1, -1))) == (-4int, 0int, 0int)) by (nonlinear_arith);
        } else if t == 7 {
            assert(p[21] == v3(-1, 1, -1) && p[22] == v3(-1, -1, 1) && p[23] == v3(-1, 1, 1));
            assert(cube_normal_table()[21] == v3(-1, 0, 0));
            assert(cross(edge(v3(-1, 1, -1), v3(-1, -1, 1)), edge(v3(-1, 1, -1), v3(-1, 1, 1))) == (-4int, 0int, 0int)) by (nonlinear_arith);
        } else if t == 8 {
            assert(p[24] == v3(-1, 1, 1) && p[25] == v3(1, 1, 1) && p[26] == v3(-1, 1, -1));
            assert(cube_normal_table()[24] == v3(0, 1, 0));
            assert(cross(edge(v3(-1, 1, 1), v3(1, 1, 1)), edge(v3(-1, 1, 1), v3(-1, 1, -1))) == (0int, 4int, 0int)) by (nonlinear_arith);
        } else if t == 9 {
            assert(p[27] == v3(-1, 1, -1) && p[28] == v3(1, 1, 1) && p[29] == v3(1, 1, -1));
            assert(cube_normal_table()[27] == v3(0, 1, 0));
            assert(cross(edge(v3(-1, 1, -1), v3(1, 1, 1)), edge(v3(-1, 1, -1), v3(1, 1, -1))) == (0int, 4int, 0int)) by (nonlinear_arith);
        } else if t == 10 {
            assert(p[30] == v3(-1, -1, -1) && p[31] == v3(1, -1, -1) && p[32] == v3(-1, -1, 1));
            assert(cube_normal_table()[30] == v3(0, -1, 0));
            assert(cross(edge(v3(-1, -1, -1), v3(1, -1, -1)), edge(v3(-1, -1, -1), v3(-1, -1, 1))) == (0int, -4int, 0int)) by (nonlinear_arith);
        } else if t == 11 {
            assert(p[33] == v3(-1, -1, 1) && p[34] == v3(1, -1, -1) && p[35] == v3(1, -1, 1));
            assert(cube_normal_table()[33] == v3(0, -1, 0));
            assert(cross(edge(v3(-1, -1, 1), v3(1, -1, -1)), edge(v3(-1, -1, 1), v3(1, -1, 1))) == (0int, -4int, 0int)) by (nonlinear_arith);
        }
    }
}

} // verus!
