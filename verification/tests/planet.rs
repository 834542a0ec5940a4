use orrery::planet::{Face, NodeAction, NodeProbe};

fn probe(beyond_horizon: bool, exceeds_threshold: bool) -> NodeProbe {
    NodeProbe { beyond_horizon, exceeds_threshold }
}

#[test]
fn new_face_depths() {
    let face = Face::new();
    assert_eq!((face.min_depth, face.max_depth), (2, 10));
}

#[test]
fn node_action_rules() {
    let face = Face::new();
    // The root is never culled.
    assert_eq!(face.node_action(0, probe(true, false)), NodeAction::Split);
    assert_eq!(face.node_action(1, probe(true, true)), NodeAction::Cull);
    assert_eq!(face.node_action(1, probe(false, false)), NodeAction::Split);
    assert_eq!(face.node_action(2, probe(false, false)), NodeAction::Emit);
    assert_eq!(face.node_action(2, probe(false, true)), NodeAction::Split);
    assert_eq!(face.node_action(10, probe(false, true)), NodeAction::Emit);
}

/// A node is a square cell (x, y, size) of a 16 x 16 grid.
type Cell = (u32, u32, u32);

fn divide(c: &Cell) -> (Cell, Cell, Cell, Cell) {
    let h = c.2 / 2;
    ((c.0, c.1, h), (c.0 + h, c.1, h), (c.0 + h, c.1 + h, h), (c.0, c.1 + h, h))
}

fn corners(c: &Cell) -> ((u32, u32), (u32, u32), (u32, u32), (u32, u32)) {
    ((c.0, c.1), (c.0 + c.2, c.1), (c.0 + c.2, c.1 + c.2), (c.0, c.1 + c.2))
}

#[test]
fn minimum_depth_gives_sixteen_quads() {
    let face = Face::new();
    let mesh = face.get_mesh_data((0, 0, 16), &|_: &Cell, _: u32| probe(false, false), &divide, &corners);
    assert_eq!(mesh.vertices.len(), 64);
    assert_eq!(mesh.indices.len(), 96);
    assert_eq!(&mesh.vertices[0..4], &[(0, 0), (4, 0), (4, 4), (0, 4)]);
    assert_eq!(&mesh.indices[6..12], &[4, 5, 6, 6, 7, 4]);
}

#[test]
fn splits_where_threshold_exceeded() {
    let face = Face::new();
    // Refine only the cells touching the origin, down to size 1.
    let measure = |c: &Cell, _: u32| probe(false, c.0 == 0 && c.1 == 0 && c.2 > 1);
    let mesh = face.get_mesh_data((0, 0, 16), &measure, &divide, &corners);
    // Depth 2 gives 16 cells of size 4; the one at the origin splits twice more.
    assert_eq!(mesh.vertices.len(), 4 * (15 + 3 + 4));
    assert_eq!(&mesh.vertices[0..4], &[(0, 0), (1, 0), (1, 1), (0, 1)]);
}

#[test]
fn culled_nodes_add_nothing() {
    let face = Face::new();
    let measure = |_: &Cell, d: u32| probe(d >= 1, false);
    let mesh = face.get_mesh_data((0, 0, 16), &measure, &divide, &corners);
    assert!(mesh.vertices.is_empty() && mesh.indices.is_empty());
}

#[test]
fn zero_depth_limits_emit_root() {
    let face = Face { max_depth: 0, min_depth: 0 };
    let mesh = face.get_mesh_data((0, 0, 16), &|_: &Cell, _: u32| probe(false, true), &divide, &corners);
    assert_eq!(mesh.vertices, vec![(0, 0), (16, 0), (16, 16), (0, 16)]);
    assert_eq!(mesh.indices, vec![0, 1, 2, 2, 3, 0]);
}

#[test]
fn same_face_and_probe_give_same_mesh() {
    let face = Face::new();
    let measure = |c: &Cell, d: u32| probe(d >= 1 && c.0 >= 8, c.0 == 0 && c.2 > 2);
    let first = face.get_mesh_data((0, 0, 16), &measure, &divide, &corners);
    let second = face.get_mesh_data((0, 0, 16), &measure, &divide, &corners);
    assert_eq!(first.vertices, second.vertices);
    assert_eq!(first.indices, second.indices);
}

#[test]
fn refinement_never_exceeds_four_to_the_depth_limit() {
    let face = Face { max_depth: 2, min_depth: 0 };
    let mesh = face.get_mesh_data((0, 0, 16), &|_: &Cell, _: u32| probe(false, true), &divide, &corners);
    assert_eq!(mesh.vertices.len(), 4 * 16);
    assert_eq!(&mesh.vertices[0..4], &[(0, 0), (4, 0), (4, 4), (0, 4)]);
}
