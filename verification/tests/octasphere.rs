use orrery::octasphere::{create_face, create_octasphere_mesh_data, get_mesh_data};

type V = (i64, i64, i64);

fn sum(a: &V, b: &V) -> V {
    (a.0 + b.0, a.1 + b.1, a.2 + b.2)
}

#[test]
fn unsplit_face_is_one_triangle() {
    let face = create_face((1, 0, 0), (0, 1, 0), (0, 0, 1), 0, &sum);
    assert!(face.children.is_none());
    let mesh = get_mesh_data(&face);
    assert_eq!(mesh.vertices, vec![(1, 0, 0), (0, 1, 0), (0, 0, 1)]);
    assert_eq!(mesh.indices, vec![0, 1, 2]);
}

#[test]
fn one_split_gives_four_triangles_sharing_midpoints() {
    let (a, b, c) = ((1, 0, 0), (0, 1, 0), (0, 0, 1));
    let face = create_face(a, b, c, 1, &sum);
    let mesh = get_mesh_data(&face);
    let (ab, bc, ca) = ((1, 1, 0), (0, 1, 1), (1, 0, 1));
    assert_eq!(mesh.vertices, vec![a, ab, ca, b, bc, ab, c, ca, bc, ab, bc, ca]);
    assert_eq!(mesh.indices, (0..12).collect::<Vec<u16>>());
}

#[test]
fn leaves_grow_by_four_per_level() {
    let face = create_face((1, 0, 0), (0, 1, 0), (0, 0, 1), 3, &sum);
    assert_eq!(get_mesh_data(&face).vertices.len(), 3 * 64);
}

#[test]
fn octasphere_has_eight_faces_in_order() {
    let meshes = create_octasphere_mesh_data(
        (1, 0, 0),
        (-1, 0, 0),
        (0, 1, 0),
        (0, -1, 0),
        (0, 0, 1),
        (0, 0, -1),
        0,
        &sum,
    );
    assert_eq!(meshes.len(), 8);
    assert_eq!(meshes[0].vertices, vec![(1, 0, 0), (0, 1, 0), (0, 0, 1)]);
    assert_eq!(meshes[3].vertices, vec![(1, 0, 0), (0, -1, 0), (0, 0, -1)]);
    assert_eq!(meshes[5].vertices, vec![(-1, 0, 0), (0, 1, 0), (0, 0, -1)]);
    let split = create_octasphere_mesh_data((1, 0, 0), (-1, 0, 0), (0, 1, 0), (0, -1, 0), (0, 0, 1), (0, 0, -1), 2, &sum);
    assert!(split.iter().all(|m| m.vertices.len() == 48 && m.indices.len() == 48));
}
