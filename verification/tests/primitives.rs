use orrery::cube::{cube_normals, cube_positions, cube_uvs, get_cube_mesh_data, CUBE_VERTEX_COUNT};
use orrery::primitives::{create_face, grid_vertices, sphere_data, surface_data, SURFACE_GRID_COUNT};

#[test]
fn sphere_data_of_three_rings_two_segments() {
    let mesh = sphere_data(3, 2);
    assert_eq!(
        mesh.vertices,
        vec![(0, 0), (1, 0), (0, 1), (1, 0), (1, 1), (0, 1), (1, 0), (2, 0), (1, 1), (2, 0), (2, 1), (1, 1)]
    );
    assert_eq!(mesh.indices, (0..12).collect::<Vec<u16>>());
}

#[test]
fn sphere_data_degenerate() {
    let mesh = sphere_data(1, 10);
    assert!(mesh.vertices.is_empty() && mesh.indices.is_empty());
}

#[test]
fn surface_data_covers_grid() {
    let mesh = surface_data();
    let cells = SURFACE_GRID_COUNT - 1;
    assert_eq!(mesh.vertices.len(), 6 * cells * cells);
    assert_eq!(&mesh.vertices[0..6], &[(0, 0), (0, 1), (1, 1), (1, 1), (1, 0), (0, 0)]);
    // Last cell: (28, 28).
    let n = mesh.vertices.len();
    assert_eq!(&mesh.vertices[n - 6..], &[(28, 28), (28, 29), (29, 29), (29, 29), (29, 28), (28, 28)]);
    assert_eq!(mesh.indices.len(), n);
    assert_eq!(mesh.indices[n - 1] as usize, n - 1);
}

#[test]
fn grid_vertices_row_by_row() {
    assert_eq!(grid_vertices(2), vec![(0, 0), (1, 0), (0, 1), (1, 1)]);
    assert!(grid_vertices(0).is_empty());
}

#[test]
fn cubesphere_face_grid() {
    let face = create_face(3);
    assert_eq!(face.vertices.len(), 9);
    assert_eq!(face.vertices[5], (2, 1));
    assert_eq!(face.indices.len(), 24);
    assert_eq!(&face.indices[0..6], &[0, 4, 3, 0, 1, 4]);
}

#[test]
fn cube_tables_have_36_vertices() {
    assert_eq!(cube_positions().len(), CUBE_VERTEX_COUNT);
    assert_eq!(cube_normals().len(), CUBE_VERTEX_COUNT);
    assert_eq!(cube_uvs().len(), CUBE_VERTEX_COUNT);
    assert_eq!(cube_positions()[0], (-1, -1, 1));
    assert_eq!(cube_normals()[35], (0, -1, 0));
    assert_eq!(cube_uvs()[5], (1, 1));
}

#[test]
fn cube_triangles_face_outward() {
    let p = cube_positions();
    let n = cube_normals();
    for t in 0..12 {
        let (a, b, c) = (p[3 * t], p[3 * t + 1], p[3 * t + 2]);
        let e1 = (b.0 - a.0, b.1 - a.1, b.2 - a.2);
        let e2 = (c.0 - a.0, c.1 - a.1, c.2 - a.2);
        let cross = (e1.1 * e2.2 - e1.2 * e2.1, e1.2 * e2.0 - e1.0 * e2.2, e1.0 * e2.1 - e1.1 * e2.0);
        let normal = n[3 * t];
        assert_eq!(cross, (4 * normal.0, 4 * normal.1, 4 * normal.2));
    }
    for i in 0..36 {
        let (q, m) = (p[i], n[i]);
        assert_eq!(q.0 * m.0 + q.1 * m.1 + q.2 * m.2, 1);
    }
}

#[test]
fn cube_mesh_data_zips_tables() {
    let mesh = get_cube_mesh_data();
    assert_eq!(mesh.vertices.len(), 36);
    assert_eq!(mesh.indices, (0..36).collect::<Vec<u16>>());
    assert_eq!(mesh.vertices[7].position, (1, -1, -1));
    assert_eq!(mesh.vertices[7].normal, (1, 0, 0));
    assert_eq!(mesh.vertices[7].uv, (0, 0));
}
