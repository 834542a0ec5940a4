//! A quadtree over a rectangle of the (u, v) parameter plane.
//!
//! Coordinates are exact dyadic numbers: a node at `level` L stores the
//! numerators of its bounds over the denominator 2^L, so the bound `u_min`
//! stands for the value `u_min / 2^L`.  Halving a rectangle is then exact
//! integer arithmetic: the children of a node live at level L + 1, where every
//! bound of the parent is doubled and the midpoint is the sum of the two bounds.

use vstd::prelude::*;

verus! {

/// The four children of a split node, in the order
/// (low u, low v), (high u, low v), (low u, high v), (high u, high v).
pub type Quadrants = (QuadNode, QuadNode, QuadNode, QuadNode);

pub struct QuadNode {
    pub u_min: i64,
    pub u_max: i64,
    pub v_min: i64,
    pub v_max: i64,
    pub level: u32,
    pub children: Option<Box<Quadrants>>,
}

/// `x` fits in an `i64`.
pub open spec fn fits_i64(x: int) -> bool {
    i64::MIN <= x <= i64::MAX
}

/// A node without children.
pub open spec fn leaf(u_min: int, u_max: int, v_min: int, v_max: int, level: int) -> QuadNode {
    QuadNode {
        u_min: u_min as i64,
        u_max: u_max as i64,
        v_min: v_min as i64,
        v_max: v_max as i64,
        level: level as u32,
        children: None,
    }
}

impl QuadNode {
    /// Number of nodes in the tree rooted here.
    pub open spec fn node_count(self) -> nat
        decreases self,
    {
        match self.children {
            None => 1,
            Some(cs) => 1 + cs.0.node_count() + cs.1.node_count() + cs.2.node_count()
                + cs.3.node_count(),
        }
    }

    /// Number of leaves of the tree rooted here.
    pub open spec fn leaf_count(self) -> nat
        decreases self,
    {
        match self.children {
            None => 1,
            Some(cs) => cs.0.leaf_count() + cs.1.leaf_count() + cs.2.leaf_count()
                + cs.3.leaf_count(),
        }
    }

    /// The exact bounds, at level `level + 1`, of quadrant `k` of this node.
    pub open spec fn quadrant(self, k: int) -> (int, int, int, int) {
        let u_lo = 2 * self.u_min;
        let u_mid = self.u_min + self.u_max;
        let u_hi = 2 * self.u_max;
        let v_lo = 2 * self.v_min;
        let v_mid = self.v_min + self.v_max;
        let v_hi = 2 * self.v_max;
        if k == 0 {
            (u_lo, u_mid, v_lo, v_mid)
        } else if k == 1 {
            (u_mid, u_hi, v_lo, v_mid)
        } else if k == 2 {
            (u_lo, u_mid, v_mid, v_hi)
        } else {
            (u_mid, u_hi, v_mid, v_hi)
        }
    }

    /// The bounds of this node, as numerators.
    pub open spec fn bounds(self) -> (int, int, int, int) {
        (self.u_min as int, self.u_max as int, self.v_min as int, self.v_max as int)
    }

    /// `child` covers exactly quadrant `k` of this node, one level deeper.
    pub open spec fn is_quadrant(self, child: QuadNode, k: int) -> bool {
        &&& child.bounds() == self.quadrant(k)
        &&& child.level == self.level + 1
    }

    /// Every split node of the tree has the four quadrants of its rectangle as
    /// children, one level deeper.
    pub open spec fn wf(self) -> bool
        decreases self,
    {
        match self.children {
            None => true,
            Some(cs) => {
                &&& self.is_quadrant(cs.0, 0)
                &&& self.is_quadrant(cs.1, 1)
                &&& self.is_quadrant(cs.2, 2)
                &&& self.is_quadrant(cs.3, 3)
                &&& cs.0.wf()
                &&& cs.1.wf()
                &&& cs.2.wf()
                &&& cs.3.wf()
            },
        }
    }

    /// A split of this node can be represented: it already has children, or
    /// its doubled bounds and its next level fit in their integer types.
    pub open spec fn split_fits(self) -> bool {
        ||| self.children is Some
        ||| {
            &&& fits_i64(2 * self.u_min)
            &&& fits_i64(2 * self.u_max)
            &&& fits_i64(2 * self.v_min)
            &&& fits_i64(2 * self.v_max)
            &&& self.level < u32::MAX
        }
    }

    /// Leaf `k` that a split gives this node.
    pub open spec fn quadrant_leaf(self, k: int) -> QuadNode {
        let q = self.quadrant(k);
        leaf(q.0, q.1, q.2, q.3, self.level + 1)
    }

    /// The node after `split`: unchanged if it already has children, else
    /// given its four quadrants as leaves.
    pub open spec fn split_node(self) -> QuadNode {
        if self.children is Some {
            self
        } else {
            QuadNode {
                children: Some(
                    Box::new(
                        (
                            self.quadrant_leaf(0),
                            self.quadrant_leaf(1),
                            self.quadrant_leaf(2),
                            self.quadrant_leaf(3),
                        ),
                    ),
                ),
                ..self
            }
        }
    }

    /// A subdivision of this tree down to `max_level` can be represented:
    /// every node that it splits satisfies `split_fits`.
    pub open spec fn subdivision_fits(self, max_level: int) -> bool
        decreases self.node_count(), max_level - self.level,
    {
        if self.level >= max_level {
            true
        } else if !self.split_fits() {
            false
        } else {
            let s = self.split_node();
            match s.children {
                None => false,
                Some(cs) => {
                    &&& cs.0.subdivision_fits(max_level)
                    &&& cs.1.subdivision_fits(max_level)
                    &&& cs.2.subdivision_fits(max_level)
                    &&& cs.3.subdivision_fits(max_level)
                },
            }
        }
    }

    /// The tree after `subdivide_to(max_level)`: nodes below `max_level` are
    /// split and their children subdivided in turn.
    pub open spec fn subdivided(self, max_level: int) -> QuadNode
        decreases self.node_count(), max_level - self.level,
    {
        if self.level >= max_level || !self.split_fits() {
            self
        } else {
            let s = self.split_node();
            match s.children {
                None => s,
                Some(cs) => {
                    proof {
                        if self.children is None {
                            assert(cs.0.node_count() == 1);
                            assert(cs.1.node_count() == 1);
                            assert(cs.2.node_count() == 1);
                            assert(cs.3.node_count() == 1);
                        }
                    }
                    QuadNode {
                    children: Some(
                        Box::new(
                            (
                                cs.0.subdivided(max_level),
                                cs.1.subdivided(max_level),
                                cs.2.subdivided(max_level),
                                cs.3.subdivided(max_level),
                            ),
                        ),
                    ),
                    ..s
                    }
                },
            }
        }
    }

    /// Every leaf of the tree has a level of at least `level`.
    pub open spec fn leaves_at_least(self, level: int) -> bool
        decreases self,
    {
        match self.children {
            None => self.level >= level,
            Some(cs) => {
                &&& cs.0.leaves_at_least(level)
                &&& cs.1.leaves_at_least(level)
                &&& cs.2.leaves_at_least(level)
                &&& cs.3.leaves_at_least(level)
            },
        }
    }

    /// A root node covering [-1, 1] x [-1, 1] at level 0, without children.
    pub fn new() -> (node: QuadNode)
        ensures
            node == leaf(-1, 1, -1, 1, 0),
    {
        QuadNode { u_min: -1, u_max: 1, v_min: -1, v_max: 1, level: 0, children: None }
    }

    /// Gives a node without children its four quadrants as children; a node
    /// that has children is left as it is.
    pub fn split(&mut self)
        requires
            old(self).split_fits(),
        ensures
            *final(self) == old(self).split_node(),
    {
        if self.children.is_some() {
            return;
        }
        let u_lo = 2 * self.u_min;
        let u_mid = self.u_min + self.u_max;
        let u_hi = 2 * self.u_max;
        let v_lo = 2 * self.v_min;
        let v_mid = self.v_min + self.v_max;
        let v_hi = 2 * self.v_max;
        let level = self.level + 1;
        self.children = Some(
            Box::new(
                (
                    QuadNode {
                        u_min: u_lo,
                        u_max: u_mid,
                        v_min: v_lo,
                        v_max: v_mid,
                        level,
                        children: None,
                    },
                    QuadNode {
                        u_min: u_mid,
                        u_max: u_hi,
                        v_min: v_lo,
                        v_max: v_mid,
                        level,
                        children: None,
                    },
                    QuadNode {
                        u_min: u_lo,
                        u_max: u_mid,
                        v_min: v_mid,
                        v_max: v_hi,
                        level,
                        children: None,
                    },
                    QuadNode {
                        u_min: u_mid,
                        u_max: u_hi,
                        v_min: v_mid,
                        v_max: v_hi,
                        level,
                        children: None,
                    },
                ),
            ),
        );
    }

    /// Splits every node below `max_level`, down to `max_level`.
    pub fn subdivide_to(&mut self, max_level: u32)
        requires
            old(self).subdivision_fits(max_level as int),
        ensures
            *final(self) == old(self).subdivided(max_level as int),
        decreases old(self).node_count(), max_level - old(self).level,
    {
        if self.level >= max_level {
            return;
        }
        self.split();
        match self.children.take() {
            None => {},
            Some(mut cs) => {
                cs.0.subdivide_to(max_level);
                cs.1.subdivide_to(max_level);
                cs.2.subdivide_to(max_level);
                cs.3.subdivide_to(max_level);
                self.children = Some(cs);
            },
        }
    }
}


/// Whether point (x, y), given as numerators at level `level + 1`, lies in
/// quadrant `k` of `node` (lower bounds inclusive, upper bounds exclusive).
pub open spec fn in_quadrant(node: QuadNode, k: int, x: int, y: int) -> bool {
    let q = node.quadrant(k);
    q.0 <= x < q.1 && q.2 <= y < q.3
}

/// The four quadrants of a node partition its rectangle: every point of the
/// rectangle lies in exactly one quadrant.
pub proof fn lemma_quadrants_partition(node: QuadNode, x: int, y: int)
    requires
        node.u_min <= node.u_max,
        node.v_min <= node.v_max,
        2 * node.u_min <= x < 2 * node.u_max,
        2 * node.v_min <= y < 2 * node.v_max,
    ensures
        exists|k: int| 0 <= k < 4 && #[trigger] in_quadrant(node, k, x, y),
        forall|j: int, k: int|
            0 <= j < 4 && 0 <= k < 4 && #[trigger] in_quadrant(node, j, x, y)
                && #[trigger] in_quadrant(node, k, x, y) ==> j == k,
{
    let k = if x < node.u_min + node.u_max {
        if y < node.v_min + node.v_max { 0int } else { 2int }
    } else {
        if y < node.v_min + node.v_max { 1int } else { 3int }
    };
    assert(in_quadrant(node, k, x, y));
}

/// In a well-formed tree, every leaf is at least as deep as the root.
pub proof fn lemma_wf_leaves_below(node: QuadNode)
    requires
        node.wf(),
    ensures
        node.leaves_at_least(node.level as int),
    decreases node,
{
    if let Some(cs) = node.children {
        lemma_wf_leaves_below(cs.0);
        lemma_wf_leaves_below(cs.1);
        lemma_wf_leaves_below(cs.2);
        lemma_wf_leaves_below(cs.3);
        lemma_leaves_at_least_weaken(cs.0, cs.0.level as int, node.level as int);
        lemma_leaves_at_least_weaken(cs.1, cs.1.level as int, node.level as int);
        lemma_leaves_at_least_weaken(cs.2, cs.2.level as int, node.level as int);
        lemma_leaves_at_least_weaken(cs.3, cs.3.level as int, node.level as int);
    }
}

proof fn lemma_leaves_at_least_weaken(node: QuadNode, a: int, b: int)
    requires
        node.leaves_at_least(a),
        b <= a,
    ensures
        node.leaves_at_least(b),
    decreases node,
{
    if let Some(cs) = node.children {
        lemma_leaves_at_least_weaken(cs.0, a, b);
        lemma_leaves_at_least_weaken(cs.1, a, b);
        lemma_leaves_at_least_weaken(cs.2, a, b);
        lemma_leaves_at_least_weaken(cs.3, a, b);
    }
}

/// Splitting keeps a tree well formed.
pub proof fn lemma_split_wf(node: QuadNode)
    requires
        node.wf(),
        node.split_fits(),
    ensures
        node.split_node().wf(),
{
    if node.children is None {
        let s = node.split_node();
        let cs = s.children.unwrap();
        assert(cs.0.wf() && cs.1.wf() && cs.2.wf() && cs.3.wf());
    }
}

/// Splitting twice is splitting once.
pub proof fn lemma_split_idempotent(node: QuadNode)
    requires
        node.split_fits(),
    ensures
        node.split_node().split_node() == node.split_node(),
{
}

/// Subdividing keeps a tree well formed.
pub proof fn lemma_subdivided_wf(node: QuadNode, max_level: int)
    requires
        node.wf(),
        node.subdivision_fits(max_level),
    ensures
        node.subdivided(max_level).wf(),
    decreases node.node_count(), max_level - node.level,
{
    if node.level < max_level {
        lemma_split_wf(node);
        let s = node.split_node();
        let cs = s.children.unwrap();
        if node.children is None {
            assert(cs.0.node_count() == 1);
            assert(cs.1.node_count() == 1);
            assert(cs.2.node_count() == 1);
            assert(cs.3.node_count() == 1);
        }
        lemma_subdivided_wf(cs.0, max_level);
        lemma_subdivided_wf(cs.1, max_level);
        lemma_subdivided_wf(cs.2, max_level);
        lemma_subdivided_wf(cs.3, max_level);
        lemma_subdivided_keeps_root(cs.0, max_level);
        lemma_subdivided_keeps_root(cs.1, max_level);
        lemma_subdivided_keeps_root(cs.2, max_level);
        lemma_subdivided_keeps_root(cs.3, max_level);
    }
}

/// Subdividing changes neither the bounds nor the level of the root.
pub proof fn lemma_subdivided_keeps_root(node: QuadNode, max_level: int)
    ensures
        node.subdivided(max_level).bounds() == node.bounds(),
        node.subdivided(max_level).level == node.level,
{
}

/// After subdividing a well-formed tree to `max_level`, every leaf is at
/// least `max_level` deep.
pub proof fn lemma_subdivided_reaches_level(node: QuadNode, max_level: int)
    requires
        node.wf(),
        node.subdivision_fits(max_level),
    ensures
        node.subdivided(max_level).leaves_at_least(max_level),
    decreases node.node_count(), max_level - node.level,
{
    if node.level >= max_level {
        lemma_wf_leaves_below(node);
        lemma_leaves_at_least_weaken(node, node.level as int, max_level);
    } else {
        lemma_split_wf(node);
        let s = node.split_node();
        let cs = s.children.unwrap();
        if node.children is None {
            assert(cs.0.node_count() == 1);
            assert(cs.1.node_count() == 1);
            assert(cs.2.node_count() == 1);
            assert(cs.3.node_count() == 1);
        }
        lemma_subdivided_reaches_level(cs.0, max_level);
        lemma_subdivided_reaches_level(cs.1, max_level);
        lemma_subdivided_reaches_level(cs.2, max_level);
        lemma_subdivided_reaches_level(cs.3, max_level);
    }
}

/// Subdividing to a level twice is subdividing once.
pub proof fn lemma_subdivided_idempotent(node: QuadNode, max_level: int)
    requires
        node.subdivision_fits(max_level),
    ensures
        node.subdivided(max_level).subdivided(max_level) == node.subdivided(max_level),
{
    lemma_subdivided_coarser(node, max_level, max_level);
}

/// After subdividing to `max_level`, subdividing to any level no deeper
/// leaves the tree as it is.
pub proof fn lemma_subdivided_coarser(node: QuadNode, max_level: int, level: int)
    requires
        node.subdivision_fits(max_level),
        level <= max_level,
    ensures
        node.subdivided(max_level).subdivided(level) == node.subdivided(max_level),
    decreases node.node_count(), max_level - node.level,
{
    if node.level < max_level {
        let s = node.split_node();
        let cs = s.children.unwrap();
        if node.children is None {
            assert(cs.0.node_count() == 1);
            assert(cs.1.node_count() == 1);
            assert(cs.2.node_count() == 1);
            assert(cs.3.node_count() == 1);
        }
        lemma_subdivided_coarser(cs.0, max_level, level);
        lemma_subdivided_coarser(cs.1, max_level, level);
        lemma_subdivided_coarser(cs.2, max_level, level);
        lemma_subdivided_coarser(cs.3, max_level, level);
        let t = node.subdivided(max_level);
        assert(t.children is Some);
        assert(t.split_fits());
        assert(t.split_node() == t);
    }
}

/// 2 to the power `e`.
pub open spec fn exp2(e: nat) -> nat
    decreases e,
{
    if e == 0 {
        1
    } else {
        2 * exp2((e - 1) as nat)
    }
}

/// 4 to the power `e`.
pub open spec fn exp4(e: nat) -> nat
    decreases e,
{
    if e == 0 {
        1
    } else {
        4 * exp4((e - 1) as nat)
    }
}

proof fn lemma_exp2_monotone(a: nat, b: nat)
    requires
        a <= b,
    ensures
        exp2(a) <= exp2(b),
    decreases b,
{
    if a < b {
        lemma_exp2_monotone(a, (b - 1) as nat);
    }
}

impl QuadNode {
    /// Every leaf of the tree is exactly `level` deep.
    pub open spec fn leaves_at(self, level: int) -> bool
        decreases self,
    {
        match self.children {
            None => self.level == level,
            Some(cs) => {
                &&& cs.0.leaves_at(level)
                &&& cs.1.leaves_at(level)
                &&& cs.2.leaves_at(level)
                &&& cs.3.leaves_at(level)
            },
        }
    }

    /// Every bound lies within [-2^level, 2^level].
    pub open spec fn bounds_within_level(self) -> bool {
        let b = exp2(self.level as nat) as int;
        &&& -b <= self.u_min <= b
        &&& -b <= self.u_max <= b
        &&& -b <= self.v_min <= b
        &&& -b <= self.v_max <= b
    }
}

/// A leaf whose bounds lie within [-2^level, 2^level] subdivides to
/// `max_level` (at most 62) without overflow, into 4^(max_level - level)
/// leaves that are all exactly `max_level` deep, no node deeper.
pub proof fn lemma_leaf_subdivision(node: QuadNode, max_level: int)
    requires
        node.children is None,
        node.bounds_within_level(),
        node.level <= max_level <= 62,
    ensures
        node.subdivision_fits(max_level),
        node.subdivided(max_level).leaf_count() == exp4((max_level - node.level) as nat),
        node.subdivided(max_level).leaves_at(max_level),
        node.subdivided(max_level).levels_at_most(max_level),
    decreases max_level - node.level,
{
    if node.level < max_level {
        lemma_split_children_within(node);
        let cs = node.split_node().children.unwrap();
        lemma_leaf_subdivision(cs.0, max_level);
        lemma_leaf_subdivision(cs.1, max_level);
        lemma_leaf_subdivision(cs.2, max_level);
        lemma_leaf_subdivision(cs.3, max_level);
        assert(exp4((max_level - node.level) as nat) == 4 * exp4(
            (max_level - node.level - 1) as nat,
        ));
    }
}

proof fn lemma_exp2_62()
    ensures
        exp2(62) == 0x4000_0000_0000_0000,
{
    reveal_with_fuel(exp2, 63);
}

/// The leaves that a split gives a leaf within its level's bounds are within
/// theirs, and the split fits.
proof fn lemma_split_children_within(node: QuadNode)
    requires
        node.children is None,
        node.bounds_within_level(),
        node.level < 62,
    ensures
        node.split_fits(),
        node.split_node().children.unwrap().0.bounds_within_level(),
        node.split_node().children.unwrap().1.bounds_within_level(),
        node.split_node().children.unwrap().2.bounds_within_level(),
        node.split_node().children.unwrap().3.bounds_within_level(),
        node.split_node().children.unwrap().0.children is None,
        node.split_node().children.unwrap().1.children is None,
        node.split_node().children.unwrap().2.children is None,
        node.split_node().children.unwrap().3.children is None,
        node.split_node().children.unwrap().0.level == node.level + 1,
        node.split_node().children.unwrap().1.level == node.level + 1,
        node.split_node().children.unwrap().2.level == node.level + 1,
        node.split_node().children.unwrap().3.level == node.level + 1,
{
    let l = node.level as nat;
    lemma_exp2_monotone(l + 1, 62);
    lemma_exp2_62();
    assert(exp2(l + 1) == 2 * exp2(l));
}

/// Subdividing the root that `QuadNode::new` makes down to `max_level` (at
/// most 62) never overflows, and gives a well-formed tree of 4^max_level
/// leaves, all exactly `max_level` deep, that tile the square
/// [-1, 1) x [-1, 1): every point of it lies in exactly one leaf.
pub proof fn lemma_root_subdivision(max_level: int)
    requires
        0 <= max_level <= 62,
    ensures
        leaf(-1, 1, -1, 1, 0).subdivision_fits(max_level),
        leaf(-1, 1, -1, 1, 0).subdivided(max_level).leaf_count() == exp4(max_level as nat),
        leaf(-1, 1, -1, 1, 0).subdivided(max_level).leaves_at(max_level),
        leaf(-1, 1, -1, 1, 0).subdivided(max_level).wf(),
        forall|x: int, y: int|
            #[trigger] leaf(-1, 1, -1, 1, 0).subdivided(max_level).leaves_containing(
                x,
                y,
                max_level,
            ) == if -exp2(max_level as nat) <= x < exp2(max_level as nat) && -exp2(max_level as nat)
                <= y < exp2(max_level as nat) {
                1nat
            } else {
                0nat
            },
{
    let root = leaf(-1, 1, -1, 1, 0);
    assert(exp2(0) == 1);
    lemma_leaf_subdivision(root, max_level);
    lemma_subdivided_wf(root, max_level);
    let t = root.subdivided(max_level);
    lemma_subdivided_keeps_root(root, max_level);
    assert forall|x: int, y: int|
        #[trigger] t.leaves_containing(x, y, max_level) == if -exp2(max_level as nat) <= x < exp2(
            max_level as nat,
        ) && -exp2(max_level as nat) <= y < exp2(max_level as nat) {
            1nat
        } else {
            0nat
        } by {
        lemma_leaves_tile(t, x, y, max_level);
    }
}

impl QuadNode {
    /// The bounds are in order: `u_min <= u_max` and `v_min <= v_max`.
    pub open spec fn ordered(self) -> bool {
        self.u_min <= self.u_max && self.v_min <= self.v_max
    }

    /// No node of the tree is deeper than `depth`.
    pub open spec fn levels_at_most(self, depth: int) -> bool
        decreases self,
    {
        &&& self.level <= depth
        &&& match self.children {
            None => true,
            Some(cs) => {
                &&& cs.0.levels_at_most(depth)
                &&& cs.1.levels_at_most(depth)
                &&& cs.2.levels_at_most(depth)
                &&& cs.3.levels_at_most(depth)
            },
        }
    }

    /// Point (x, y), given as numerators at level `depth` (at least this
    /// node's level), lies in this node's rectangle (lower bounds inclusive,
    /// upper bounds exclusive).
    pub open spec fn contains_point(self, x: int, y: int, depth: int) -> bool {
        let s = exp2((depth - self.level) as nat) as int;
        &&& self.u_min * s <= x < self.u_max * s
        &&& self.v_min * s <= y < self.v_max * s
    }

    /// Number of leaves of the tree whose rectangle holds point (x, y), given
    /// as numerators at level `depth`.
    pub open spec fn leaves_containing(self, x: int, y: int, depth: int) -> nat
        decreases self,
    {
        match self.children {
            None => if self.contains_point(x, y, depth) {
                1
            } else {
                0
            },
            Some(cs) => cs.0.leaves_containing(x, y, depth) + cs.1.leaves_containing(x, y, depth)
                + cs.2.leaves_containing(x, y, depth) + cs.3.leaves_containing(x, y, depth),
        }
    }
}

/// One axis of a split: with s = 2 * h and lo <= hi, the scaled interval
/// [lo * s, hi * s) is the disjoint union of [2 lo * h, (lo + hi) * h) and
/// [(lo + hi) * h, 2 hi * h).
proof fn lemma_axis_split(lo: int, hi: int, h: int, s: int)
    requires
        lo <= hi,
        0 <= h,
        s == 2 * h,
    ensures
        (2 * lo) * h == lo * s,
        (2 * hi) * h == hi * s,
        lo * s <= (lo + hi) * h <= hi * s,
{
    assert((2 * lo) * h == lo * s) by (nonlinear_arith)
        requires
            s == 2 * h,
    ;
    assert((2 * hi) * h == hi * s) by (nonlinear_arith)
        requires
            s == 2 * h,
    ;
    assert(lo * s <= (lo + hi) * h <= hi * s) by (nonlinear_arith)
        requires
            lo <= hi,
            0 <= h,
            s == 2 * h,
    ;
}

/// The leaves of a well-formed quadtree tile its rectangle: every point of
/// the rectangle lies in exactly one leaf, and no point outside it lies in
/// any leaf.
pub proof fn lemma_leaves_tile(node: QuadNode, x: int, y: int, depth: int)
    requires
        node.wf(),
        node.ordered(),
        node.levels_at_most(depth),
    ensures
        node.leaves_containing(x, y, depth) == if node.contains_point(x, y, depth) {
            1nat
        } else {
            0nat
        },
    decreases node,
{
    if let Some(cs) = node.children {
        let l = node.level as int;
        let s = exp2((depth - l) as nat) as int;
        let h = exp2((depth - l - 1) as nat) as int;
        assert(cs.0.level == l + 1);
        assert(cs.0.levels_at_most(depth));
        assert(l + 1 <= depth);
        let n = (depth - l) as nat;
        assert(exp2(n) == 2 * exp2((n - 1) as nat));
        assert((n - 1) as nat == (depth - l - 1) as nat);
        lemma_axis_split(node.u_min as int, node.u_max as int, h, s);
        lemma_axis_split(node.v_min as int, node.v_max as int, h, s);
        lemma_leaves_tile(cs.0, x, y, depth);
        lemma_leaves_tile(cs.1, x, y, depth);
        lemma_leaves_tile(cs.2, x, y, depth);
        lemma_leaves_tile(cs.3, x, y, depth);
    }
}

} // verus!
