use orrery::mesh::{grid_indices, sequential_indices, triangulate_cells, MeshData};

#[test]
fn sequential_indices_count_up() {
    assert_eq!(sequential_indices(0), Vec::<u16>::new());
    assert_eq!(sequential_indices(4), vec![0, 1, 2, 3]);
}

#[test]
fn sequential_indices_wrap_at_16_bits() {
    let indices = sequential_indices(65538);
    assert_eq!(indices[65535], 65535);
    assert_eq!(indices[65536], 0);
    assert_eq!(indices[65537], 1);
}

#[test]
fn push_quad_appends_two_triangles() {
    let mut mesh: MeshData<char> = MeshData::new();
    mesh.push_quad('a', 'b', 'c', 'd');
    mesh.push_quad('e', 'f', 'g', 'h');
    assert_eq!(mesh.vertices, vec!['a', 'b', 'c', 'd', 'e', 'f', 'g', 'h']);
    assert_eq!(mesh.indices, vec![0, 1, 2, 2, 3, 0, 4, 5, 6, 6, 7, 4]);
}

#[test]
fn push_quad_numbers_vertices_modulo_16_bits() {
    let mut mesh: MeshData<u8> = MeshData { vertices: vec![0; 65536], indices: Vec::new() };
    mesh.push_quad(1, 2, 3, 4);
    assert_eq!(mesh.indices, vec![0, 1, 2, 2, 3, 0]);
    let mut mesh: MeshData<u8> = MeshData { vertices: vec![0; 65532], indices: Vec::new() };
    mesh.push_quad(1, 2, 3, 4);
    assert_eq!(mesh.indices, vec![65532, 65533, 65534, 65534, 65535, 65532]);
}

#[test]
fn grid_indices_of_three_by_three() {
    let indices = grid_indices(3);
    assert_eq!(
        indices,
        vec![
            0, 4, 3, 0, 1, 4, // cell (0, 0)
            1, 5, 4, 1, 2, 5, // cell (1, 0)
            3, 7, 6, 3, 4, 7, // cell (0, 1)
            4, 8, 7, 4, 5, 8, // cell (1, 1)
        ]
    );
}

#[test]
fn grid_indices_edge_cases() {
    assert!(grid_indices(1).is_empty());
    assert_eq!(grid_indices(2), vec![0, 3, 2, 0, 1, 3]);
    let largest = grid_indices(256);
    assert_eq!(largest.len(), 6 * 255 * 255);
    assert_eq!(*largest.iter().max().unwrap(), 65535);
}

#[test]
fn triangulate_cells_follows_pattern() {
    let pattern = [(0, 0), (1, 0), (0, 1), (1, 0), (1, 1), (0, 1)];
    let corners = triangulate_cells(2, 1, pattern);
    assert_eq!(
        corners,
        vec![(0, 0), (1, 0), (0, 1), (1, 0), (1, 1), (0, 1), (1, 0), (2, 0), (1, 1), (2, 0), (2, 1), (1, 1)]
    );
    assert!(triangulate_cells(0, 5, pattern).is_empty());
}
