use orrery::quad_node::QuadNode;

fn count_leaves(node: &QuadNode) -> usize {
    match &node.children {
        None => 1,
        Some(cs) => count_leaves(&cs.0) + count_leaves(&cs.1) + count_leaves(&cs.2) + count_leaves(&cs.3),
    }
}

fn leaf_levels(node: &QuadNode, out: &mut Vec<u32>) {
    match &node.children {
        None => out.push(node.level),
        Some(cs) => {
            leaf_levels(&cs.0, out);
            leaf_levels(&cs.1, out);
            leaf_levels(&cs.2, out);
            leaf_levels(&cs.3, out);
        }
    }
}

fn bounds(node: &QuadNode) -> (i64, i64, i64, i64, u32) {
    (node.u_min, node.u_max, node.v_min, node.v_max, node.level)
}

#[test]
fn new_root_covers_unit_square() {
    let root = QuadNode::new();
    assert_eq!(bounds(&root), (-1, 1, -1, 1, 0));
    assert!(root.children.is_none());
}

#[test]
fn split_gives_four_quadrants() {
    let mut root = QuadNode::new();
    root.split();
    let cs = root.children.as_ref().unwrap();
    assert_eq!(bounds(&cs.0), (-2, 0, -2, 0, 1));
    assert_eq!(bounds(&cs.1), (0, 2, -2, 0, 1));
    assert_eq!(bounds(&cs.2), (-2, 0, 0, 2, 1));
    assert_eq!(bounds(&cs.3), (0, 2, 0, 2, 1));
}

#[test]
fn split_twice_is_split_once() {
    let mut root = QuadNode::new();
    root.split();
    let mut first = Vec::new();
    leaf_levels(&root, &mut first);
    // Splitting a node that has children changes nothing.
    root.split();
    let mut second = Vec::new();
    leaf_levels(&root, &mut second);
    assert_eq!(first, second);
    assert_eq!(count_leaves(&root), 4);
}

#[test]
fn subdivide_to_reaches_level_everywhere() {
    let mut root = QuadNode::new();
    root.subdivide_to(3);
    assert_eq!(count_leaves(&root), 64);
    let mut levels = Vec::new();
    leaf_levels(&root, &mut levels);
    assert!(levels.iter().all(|&l| l == 3));
}

#[test]
fn subdivide_to_is_idempotent() {
    let mut root = QuadNode::new();
    root.subdivide_to(2);
    root.subdivide_to(2);
    assert_eq!(count_leaves(&root), 16);
}

#[test]
fn subdivide_below_level_does_nothing() {
    let mut node = QuadNode::new();
    node.level = 5;
    node.subdivide_to(3);
    assert!(node.children.is_none());
}

#[test]
fn subdivide_deeper_keeps_earlier_split() {
    let mut root = QuadNode::new();
    root.subdivide_to(1);
    root.subdivide_to(2);
    assert_eq!(count_leaves(&root), 16);
    let cs = root.children.as_ref().unwrap();
    let grand = cs.3.children.as_ref().unwrap();
    // The top-right quadrant of the top-right quadrant: u and v in [1/2, 1].
    assert_eq!(bounds(&grand.3), (2, 4, 2, 4, 2));
}

fn leaves_containing(node: &QuadNode, x: i64, y: i64, depth: u32) -> usize {
    match &node.children {
        None => {
            let s = 1i64 << (depth - node.level);
            let inside = node.u_min * s <= x && x < node.u_max * s && node.v_min * s <= y && y < node.v_max * s;
            inside as usize
        }
        Some(cs) => {
            leaves_containing(&cs.0, x, y, depth)
                + leaves_containing(&cs.1, x, y, depth)
                + leaves_containing(&cs.2, x, y, depth)
                + leaves_containing(&cs.3, x, y, depth)
        }
    }
}

#[test]
fn leaves_tile_the_square() {
    let mut root = QuadNode::new();
    root.subdivide_to(1);
    // Refine one quadrant further, so the leaves have mixed depths.
    root.children.as_mut().unwrap().2.subdivide_to(3);
    for x in -10..10 {
        for y in -10..10 {
            let expected = (-8 <= x && x < 8 && -8 <= y && y < 8) as usize;
            assert_eq!(leaves_containing(&root, x, y, 3), expected, "point ({}, {})", x, y);
        }
    }
}

#[test]
fn subdivide_to_coarser_level_changes_nothing() {
    let mut root = QuadNode::new();
    root.subdivide_to(3);
    let mut before = Vec::new();
    leaf_levels(&root, &mut before);
    root.subdivide_to(1);
    let mut after = Vec::new();
    leaf_levels(&root, &mut after);
    assert_eq!(before, after);
    assert_eq!(count_leaves(&root), 64);
}
