//! Level-of-detail subdivision of one face of the cube planet.
//!
//! A face is a quad that is refined recursively: a node is dropped when it is
//! entirely beyond the horizon, split into four when it is too shallow or
//! looks too large on screen, and emitted as one quad of the mesh otherwise.
//! The geometry of a node (its corner positions and what the camera sees of
//! them) is the caller's; the caller hands in three functions: one that
//! measures a node, one that divides it into its four children and one that
//! gives its four corner vertices.

use vstd::prelude::*;
use crate::mesh::{quad_indices, MeshData};
use crate::quad_node::exp4;

verus! {

/// What the subdivision does with a node.
#[derive(PartialEq, Eq, Structural, Clone, Copy, Debug)]
pub enum NodeAction {
    /// Drop the node: it cannot be seen.
    Cull,
    /// Replace the node by its four children.
    Split,
    /// Emit the node as one quad.
    Emit,
}

/// What the camera sees of a node.
#[derive(PartialEq, Eq, Structural, Clone, Copy, Debug)]
pub struct NodeProbe {
    /// Every corner of the node lies beyond the horizon.
    pub beyond_horizon: bool,
    /// The node's size relative to its distance exceeds the split threshold.
    pub exceeds_threshold: bool,
}

/// The depth limits of a face's subdivision.
#[derive(PartialEq, Eq, Structural, Clone, Copy, Debug)]
pub struct Face {
    /// Nodes at this depth or deeper are never split.
    pub max_depth: u32,
    /// Nodes shallower than this are always split (unless culled).
    pub min_depth: u32,
}

/// The six indices of each of `count` quads whose vertices follow each other
/// from vertex number `base` on.
pub open spec fn quad_run(base: int, count: nat) -> Seq<u16>
    decreases count,
{
    if count == 0 {
        Seq::empty()
    } else {
        quad_run(base, (count - 1) as nat) + quad_indices(base + 4 * (count - 1))
    }
}

/// Two runs of quads, the second starting where the first ends, make one run.
pub proof fn lemma_quad_run_concat(base: int, a: nat, b: nat)
    ensures
        quad_run(base, a) + quad_run(base + 4 * a, b) == quad_run(base, a + b),
    decreases b,
{
    if b == 0 {
        assert(quad_run(base, a) + quad_run(base + 4 * a, 0) =~= quad_run(base, a));
    } else {
        lemma_quad_run_concat(base, a, (b - 1) as nat);
        assert(base + 4 * a + 4 * (b - 1) == base + 4 * (a + b - 1));
        assert(quad_run(base, a) + quad_run(base + 4 * a, b) =~= quad_run(base, a) + quad_run(
            base + 4 * a,
            (b - 1) as nat,
        ) + quad_indices(base + 4 * a + 4 * (b - 1)));
    }
}

/// One quad: the four corner vertices of a node.
pub type Quad<V> = (V, V, V, V);

/// The vertices of `quads`, four per quad, in order.
pub open spec fn quad_vertices<V>(quads: Seq<Quad<V>>) -> Seq<V>
    decreases quads.len(),
{
    if quads.len() == 0 {
        Seq::empty()
    } else {
        let q = quads.last();
        quad_vertices(quads.drop_last()) + seq![q.0, q.1, q.2, q.3]
    }
}

/// How one node was refined: what the probe measured of it and, according
/// to what that decided, nothing more (culled), the quad of its corners
/// (emitted), or its four children and how each of them was refined (split).
pub enum Refinement<P, V> {
    Culled { measured: NodeProbe },
    Emitted { measured: NodeProbe, quad: Quad<V> },
    Split {
        measured: NodeProbe,
        children: (P, P, P, P),
        first: Box<Refinement<P, V>>,
        second: Box<Refinement<P, V>>,
        third: Box<Refinement<P, V>>,
        fourth: Box<Refinement<P, V>>,
    },
}

impl<P, V> Refinement<P, V> {
    /// The quads that the refinement emits, depth first, children in the
    /// order that `divide` gives them.
    pub open spec fn quads(self) -> Seq<Quad<V>>
        decreases self,
    {
        match self {
            Refinement::Culled { .. } => Seq::empty(),
            Refinement::Emitted { quad, .. } => seq![quad],
            Refinement::Split { first, second, third, fourth, .. } => first.quads()
                + second.quads() + third.quads() + fourth.quads(),
        }
    }

    /// The depth of the node of each emitted quad, in the order of
    /// `quads`, when the refined node is at `depth`.
    pub open spec fn quad_depths(self, depth: int) -> Seq<int>
        decreases self,
    {
        match self {
            Refinement::Culled { .. } => Seq::empty(),
            Refinement::Emitted { .. } => seq![depth],
            Refinement::Split { first, second, third, fourth, .. } => first.quad_depths(depth + 1)
                + second.quad_depths(depth + 1) + third.quad_depths(depth + 1)
                + fourth.quad_depths(depth + 1),
        }
    }

    /// What the probe measured of the refined node.
    pub open spec fn measured(self) -> NodeProbe {
        match self {
            Refinement::Culled { measured } => measured,
            Refinement::Emitted { measured, .. } => measured,
            Refinement::Split { measured, .. } => measured,
        }
    }
}

/// A vertex count that is a multiple of 4 leaves room, modulo 2^16, for the
/// three vertex numbers after it.
proof fn lemma_quad_base_fits(len: usize)
    requires
        len % 4 == 0,
    ensures
        len % 65536 <= 65532,
{
    assert(len % 4 == 0 ==> len % 65536 <= 65532) by (bit_vector);
}

impl Face {
    /// A face that splits every node shallower than depth 2, and no node at
    /// depth 10 or deeper.
    pub fn new() -> (face: Face)
        ensures
            face.max_depth == 10,
            face.min_depth == 2,
    {
        Face { max_depth: 10, min_depth: 2 }
    }

    /// What happens to a node at `depth` with what the camera sees of it:
    /// below the root, a node beyond the horizon is culled; a node shallower
    /// than `min_depth`, or shallower than `max_depth` and over the
    /// threshold, is split; any other node is emitted.
    pub open spec fn action(self, depth: int, probe: NodeProbe) -> NodeAction {
        if depth > 0 && probe.beyond_horizon {
            NodeAction::Cull
        } else if depth < self.min_depth || (depth < self.max_depth && probe.exceeds_threshold) {
            NodeAction::Split
        } else {
            NodeAction::Emit
        }
    }

    /// The greatest depth at which a node can still be split.
    pub open spec fn split_limit(self) -> int {
        if self.max_depth < self.min_depth {
            self.min_depth as int
        } else {
            self.max_depth as int
        }
    }

    /// What happens to a node at `depth` with what the camera sees of it.
    pub fn node_action(&self, depth: u32, probe: NodeProbe) -> (action: NodeAction)
        ensures
            action == self.action(depth as int, probe),
    {
        if depth > 0 && probe.beyond_horizon {
            NodeAction::Cull
        } else if depth < self.min_depth || (depth < self.max_depth && probe.exceeds_threshold) {
            NodeAction::Split
        } else {
            NodeAction::Emit
        }
    }

    /// `r` is how this face refines `node` at `depth` with `probe`, `divide`
    /// and `corners`: every node's action is what `probe` measured of it
    /// decides, an emitted node's quad is what `corners` gives for it, and a
    /// split node's children are what `divide` gives for it, each refined in
    /// turn one level deeper.
    pub open spec fn refines<P, V, Probe, Divide, Corners>(
        self,
        probe: Probe,
        divide: Divide,
        corners: Corners,
        node: P,
        depth: u32,
        r: Refinement<P, V>,
    ) -> bool where
        Probe: Fn(&P, u32) -> NodeProbe,
        Divide: Fn(&P) -> (P, P, P, P),
        Corners: Fn(&P) -> Quad<V>,

        decreases r,
    {
        &&& probe.ensures((&node, depth), r.measured())
        &&& match r {
            Refinement::Culled { measured } => self.action(depth as int, measured)
                == NodeAction::Cull,
            Refinement::Emitted { measured, quad } => {
                &&& self.action(depth as int, measured) == NodeAction::Emit
                &&& corners.ensures((&node,), quad)
            },
            Refinement::Split { measured, children, first, second, third, fourth } => {
                &&& self.action(depth as int, measured) == NodeAction::Split
                &&& divide.ensures((&node,), children)
                &&& depth < u32::MAX
                &&& self.refines(probe, divide, corners, children.0, (depth + 1) as u32, *first)
                &&& self.refines(probe, divide, corners, children.1, (depth + 1) as u32, *second)
                &&& self.refines(probe, divide, corners, children.2, (depth + 1) as u32, *third)
                &&& self.refines(probe, divide, corners, children.3, (depth + 1) as u32, *fourth)
            },
        }
    }

    /// Refines `node`, at `depth`, into `mesh`: measures it with `probe`;
    /// culled, it adds nothing; split, its four children from `divide` are
    /// refined in turn one level deeper; emitted, its four corners from
    /// `corners` are appended as one quad.  What is appended is the quads of
    /// a refinement of `node`, four vertices and two triangles each.
    pub fn descend_node<P, V, Probe, Divide, Corners>(
        &self,
        node: P,
        depth: u32,
        probe: &Probe,
        divide: &Divide,
        corners: &Corners,
        mesh: &mut MeshData<V>,
    ) where
        Probe: Fn(&P, u32) -> NodeProbe,
        Divide: Fn(&P) -> (P, P, P, P),
        Corners: Fn(&P) -> Quad<V>,

        requires
            forall|p: &P, d: u32| #[trigger] probe.requires((p, d)),
            forall|p: &P| #[trigger] divide.requires((p,)),
            forall|p: &P| #[trigger] corners.requires((p,)),
            old(mesh).vertices.len() % 4 == 0,
        ensures
            final(mesh).vertices.len() % 4 == 0,
            self.appends_refinement(*probe, *divide, *corners, node, depth, *old(mesh), *final(mesh)),
        decreases self.split_limit() - depth,
    {
        let measured = probe(&node, depth);
        let ghost before = *mesh;
        let ghost len0 = before.vertices.len() as int;
        match self.node_action(depth, measured) {
            NodeAction::Cull => {
                proof {
                    let r = Refinement::<P, V>::Culled { measured };
                    assert(self.refines(*probe, *divide, *corners, node, depth, r));
                    assert(quad_vertices(r.quads()) =~= Seq::<V>::empty());
                    assert(mesh.vertices@ =~= before.vertices@ + quad_vertices(r.quads()));
                    assert(mesh.indices@ =~= before.indices@ + quad_run(len0, r.quads().len()));
                }
            },
            NodeAction::Split => {
                let kids = divide(&node);
                let ghost gkids = kids;
                let (a, b, c, d) = kids;
                self.descend_node(a, depth + 1, probe, divide, corners, mesh);
                let ghost m1 = *mesh;
                self.descend_node(b, depth + 1, probe, divide, corners, mesh);
                let ghost m2 = *mesh;
                self.descend_node(c, depth + 1, probe, divide, corners, mesh);
                let ghost m3 = *mesh;
                self.descend_node(d, depth + 1, probe, divide, corners, mesh);
                proof {
                    self.lemma_split_refinement(
                        *probe,
                        *divide,
                        *corners,
                        node,
                        depth,
                        measured,
                        gkids,
                        before,
                        m1,
                        m2,
                        m3,
                        *mesh,
                    );
                }
            },
            NodeAction::Emit => {
                let quad = corners(&node);
                let ghost gquad = quad;
                let (a, b, c, d) = quad;
                proof {
                    lemma_quad_base_fits(mesh.vertices.len());
                }
                mesh.push_quad(a, b, c, d);
                proof {
                    let r = Refinement::<P, V>::Emitted { measured, quad: gquad };
                    assert(self.refines(*probe, *divide, *corners, node, depth, r));
                    assert(r.quads().drop_last() =~= Seq::<Quad<V>>::empty());
                    assert(quad_vertices(Seq::<Quad<V>>::empty()) =~= Seq::<V>::empty());
                    assert(gquad == (a, b, c, d));
                    assert(quad_vertices(r.quads()) =~= seq![a, b, c, d]);
                    assert(quad_run(len0, 0) =~= Seq::<u16>::empty());
                    assert(quad_run(len0, 1) =~= quad_indices(len0));
                    assert(mesh.indices@ =~= before.indices@ + quad_run(len0, r.quads().len()));
                }
            },
        }
    }

    /// The mesh of a whole face: the quads of a refinement of `root` at
    /// depth 0, four vertices and two triangles each, in an empty mesh.
    pub fn get_mesh_data<P, V, Probe, Divide, Corners>(
        &self,
        root: P,
        probe: &Probe,
        divide: &Divide,
        corners: &Corners,
    ) -> (mesh: MeshData<V>) where
        Probe: Fn(&P, u32) -> NodeProbe,
        Divide: Fn(&P) -> (P, P, P, P),
        Corners: Fn(&P) -> Quad<V>,

        requires
            forall|p: &P, d: u32| #[trigger] probe.requires((p, d)),
            forall|p: &P| #[trigger] divide.requires((p,)),
            forall|p: &P| #[trigger] corners.requires((p,)),
        ensures
            exists|r: Refinement<P, V>|
                #[trigger] self.refines(*probe, *divide, *corners, root, 0, r)
                    && mesh.vertices@ == quad_vertices(r.quads()) && mesh.indices@ == quad_run(
                    0,
                    r.quads().len(),
                ),
    {
        let mut mesh: MeshData<V> = MeshData::new();
        let ghost empty = mesh;
        self.descend_node(root, 0, probe, divide, corners, &mut mesh);
        proof {
            let r = choose|r: Refinement<P, V>|
                #[trigger] self.refines(*probe, *divide, *corners, root, 0, r) && mesh.vertices@
                    == empty.vertices@ + quad_vertices(r.quads()) && mesh.indices@
                    == empty.indices@ + quad_run(0, r.quads().len());
            assert(mesh.vertices@ =~= quad_vertices(r.quads()));
            assert(mesh.indices@ =~= quad_run(0, r.quads().len()));
        }
        mesh
    }
}

impl Face {
    /// `after` is `before` with the quads of a refinement of `node` appended.
    pub open spec fn appends_refinement<P, V, Probe, Divide, Corners>(
        self,
        probe: Probe,
        divide: Divide,
        corners: Corners,
        node: P,
        depth: u32,
        before: MeshData<V>,
        after: MeshData<V>,
    ) -> bool where
        Probe: Fn(&P, u32) -> NodeProbe,
        Divide: Fn(&P) -> (P, P, P, P),
        Corners: Fn(&P) -> Quad<V>,
     {
        exists|r: Refinement<P, V>|
            #[trigger] self.refines(probe, divide, corners, node, depth, r) && after.vertices@
                == before.vertices@ + quad_vertices(r.quads()) && after.indices@
                == before.indices@ + quad_run(before.vertices.len() as int, r.quads().len())
    }

    /// The four children of a split node, refined one after the other, make
    /// a refinement of the node.
    #[verifier::spinoff_prover]
    proof fn lemma_split_refinement<P, V, Probe, Divide, Corners>(
        self,
        probe: Probe,
        divide: Divide,
        corners: Corners,
        node: P,
        depth: u32,
        measured: NodeProbe,
        kids: (P, P, P, P),
        m0: MeshData<V>,
        m1: MeshData<V>,
        m2: MeshData<V>,
        m3: MeshData<V>,
        m4: MeshData<V>,
    ) where
        Probe: Fn(&P, u32) -> NodeProbe,
        Divide: Fn(&P) -> (P, P, P, P),
        Corners: Fn(&P) -> Quad<V>,

        requires
            probe.ensures((&node, depth), measured),
            self.action(depth as int, measured) == NodeAction::Split,
            divide.ensures((&node,), kids),
            depth < u32::MAX,
            self.appends_refinement(probe, divide, corners, kids.0, (depth + 1) as u32, m0, m1),
            self.appends_refinement(probe, divide, corners, kids.1, (depth + 1) as u32, m1, m2),
            self.appends_refinement(probe, divide, corners, kids.2, (depth + 1) as u32, m2, m3),
            self.appends_refinement(probe, divide, corners, kids.3, (depth + 1) as u32, m3, m4),
        ensures
            self.appends_refinement(probe, divide, corners, node, depth, m0, m4),
    {
        let d1 = (depth + 1) as u32;
        let r1 = choose|r: Refinement<P, V>|
            #[trigger] self.refines(probe, divide, corners, kids.0, d1, r) && m1.vertices@
                == m0.vertices@ + quad_vertices(r.quads()) && m1.indices@ == m0.indices@
                + quad_run(m0.vertices.len() as int, r.quads().len());
        let r2 = choose|r: Refinement<P, V>|
            #[trigger] self.refines(probe, divide, corners, kids.1, d1, r) && m2.vertices@
                == m1.vertices@ + quad_vertices(r.quads()) && m2.indices@ == m1.indices@
                + quad_run(m1.vertices.len() as int, r.quads().len());
        let r3 = choose|r: Refinement<P, V>|
            #[trigger] self.refines(probe, divide, corners, kids.2, d1, r) && m3.vertices@
                == m2.vertices@ + quad_vertices(r.quads()) && m3.indices@ == m2.indices@
                + quad_run(m2.vertices.len() as int, r.quads().len());
        let r4 = choose|r: Refinement<P, V>|
            #[trigger] self.refines(probe, divide, corners, kids.3, d1, r) && m4.vertices@
                == m3.vertices@ + quad_vertices(r.quads()) && m4.indices@ == m3.indices@
                + quad_run(m3.vertices.len() as int, r.quads().len());
        let r = Refinement::<P, V>::Split {
            measured,
            children: kids,
            first: Box::new(r1),
            second: Box::new(r2),
            third: Box::new(r3),
            fourth: Box::new(r4),
        };
        assert(self.refines(probe, divide, corners, node, depth, r));
        assert(r.quads() == r1.quads() + r2.quads() + r3.quads() + r4.quads());
        lemma_four_appends(r1.quads(), r2.quads(), r3.quads(), r4.quads(), m0, m1, m2, m3, m4);
    }
}

impl Face {
    /// Below the root, a node entirely beyond the horizon is culled, however
    /// large it looks; the root is never culled; a visible node shallower
    /// than `min_depth` is split; and no node at the split limit or deeper is
    /// split.
    pub proof fn lemma_action_rules(self, depth: int, probe: NodeProbe)
        ensures
            depth > 0 && probe.beyond_horizon ==> self.action(depth, probe) == NodeAction::Cull,
            depth == 0 ==> self.action(depth, probe) != NodeAction::Cull,
            !(depth > 0 && probe.beyond_horizon) && depth < self.min_depth ==> self.action(
                depth,
                probe,
            ) == NodeAction::Split,
            depth >= self.split_limit() ==> self.action(depth, probe) != NodeAction::Split,
            !(depth > 0 && probe.beyond_horizon) && self.min_depth <= depth
                && !probe.exceeds_threshold ==> self.action(depth, probe) == NodeAction::Emit,
    {
    }

    /// A refinement of a node at `depth`, no deeper than the split limit,
    /// emits at most 4^(limit - depth) quads, each from a node that is at
    /// least `min_depth` and at most the split limit deep (with
    /// `min_depth <= max_depth`, the limit is `max_depth`).
    pub proof fn lemma_refinement_bounds<P, V, Probe, Divide, Corners>(
        self,
        probe: Probe,
        divide: Divide,
        corners: Corners,
        node: P,
        depth: u32,
        r: Refinement<P, V>,
    ) where
        Probe: Fn(&P, u32) -> NodeProbe,
        Divide: Fn(&P) -> (P, P, P, P),
        Corners: Fn(&P) -> Quad<V>,

        requires
            self.refines(probe, divide, corners, node, depth, r),
            depth <= self.split_limit(),
        ensures
            r.quads().len() <= exp4((self.split_limit() - depth) as nat),
            r.quad_depths(depth as int).len() == r.quads().len(),
            forall|i: int|
                0 <= i < r.quads().len() ==> depth <= #[trigger] r.quad_depths(depth as int)[i]
                    && self.min_depth <= r.quad_depths(depth as int)[i] <= self.split_limit(),
        decreases r,
    {
        let e = (self.split_limit() - depth) as nat;
        lemma_exp4_positive(e);
        match r {
            Refinement::Culled { .. } => {},
            Refinement::Emitted { .. } => {},
            Refinement::Split { children, first, second, third, fourth, .. } => {
                let d1 = (depth + 1) as u32;
                self.lemma_refinement_bounds(probe, divide, corners, children.0, d1, *first);
                self.lemma_refinement_bounds(probe, divide, corners, children.1, d1, *second);
                self.lemma_refinement_bounds(probe, divide, corners, children.2, d1, *third);
                self.lemma_refinement_bounds(probe, divide, corners, children.3, d1, *fourth);
                assert(exp4(e) == 4 * exp4((e - 1) as nat));
                let (a, b, c, d) = (
                    first.quad_depths(d1 as int),
                    second.quad_depths(d1 as int),
                    third.quad_depths(d1 as int),
                    fourth.quad_depths(d1 as int),
                );
                let all = r.quad_depths(depth as int);
                assert(all == a + b + c + d);
                assert forall|i: int| 0 <= i < r.quads().len() implies depth <= #[trigger] all[i]
                    && self.min_depth <= all[i] <= self.split_limit() by {
                    if i < a.len() {
                        assert(all[i] == a[i]);
                    } else if i < a.len() + b.len() {
                        assert(all[i] == b[i - a.len()]);
                    } else if i < a.len() + b.len() + c.len() {
                        assert(all[i] == c[i - a.len() - b.len()]);
                    } else {
                        assert(all[i] == d[i - a.len() - b.len() - c.len()]);
                    }
                }
            },
        }
    }

    /// The face mesh is a function of the face and of what the three
    /// functions give: where each of them gives one result for each
    /// argument, any two refinements of a node emit the same quads.
    pub proof fn lemma_refinement_unique<P, V, Probe, Divide, Corners>(
        self,
        probe: Probe,
        divide: Divide,
        corners: Corners,
        node: P,
        depth: u32,
        r1: Refinement<P, V>,
        r2: Refinement<P, V>,
    ) where
        Probe: Fn(&P, u32) -> NodeProbe,
        Divide: Fn(&P) -> (P, P, P, P),
        Corners: Fn(&P) -> Quad<V>,

        requires
            forall|p: &P, d: u32, a: NodeProbe, b: NodeProbe|
                #![trigger probe.ensures((p, d), a), probe.ensures((p, d), b)]
                probe.ensures((p, d), a) && probe.ensures((p, d), b) ==> a == b,
            forall|p: &P, a: (P, P, P, P), b: (P, P, P, P)|
                #![trigger divide.ensures((p,), a), divide.ensures((p,), b)]
                divide.ensures((p,), a) && divide.ensures((p,), b) ==> a == b,
            forall|p: &P, a: Quad<V>, b: Quad<V>|
                #![trigger corners.ensures((p,), a), corners.ensures((p,), b)]
                corners.ensures((p,), a) && corners.ensures((p,), b) ==> a == b,
            self.refines(probe, divide, corners, node, depth, r1),
            self.refines(probe, divide, corners, node, depth, r2),
        ensures
            r1.quads() == r2.quads(),
        decreases r1,
    {
        assert(r1.measured() == r2.measured());
        match r1 {
            Refinement::Culled { .. } => {},
            Refinement::Emitted { quad, .. } => {
                assert(corners.ensures((&node,), quad));
            },
            Refinement::Split { children, first, second, third, fourth, .. } => {
                let d1 = (depth + 1) as u32;
                match r2 {
                    Refinement::Split {
                        children: children2,
                        first: first2,
                        second: second2,
                        third: third2,
                        fourth: fourth2,
                        ..
                    } => {
                        assert(divide.ensures((&node,), children));
                        assert(divide.ensures((&node,), children2));
                        assert(children == children2);
                        self.lemma_refinement_unique(
                            probe,
                            divide,
                            corners,
                            children.0,
                            d1,
                            *first,
                            *first2,
                        );
                        self.lemma_refinement_unique(
                            probe,
                            divide,
                            corners,
                            children.1,
                            d1,
                            *second,
                            *second2,
                        );
                        self.lemma_refinement_unique(
                            probe,
                            divide,
                            corners,
                            children.2,
                            d1,
                            *third,
                            *third2,
                        );
                        self.lemma_refinement_unique(
                            probe,
                            divide,
                            corners,
                            children.3,
                            d1,
                            *fourth,
                            *fourth2,
                        );
                    },
                    _ => {},
                }
            },
        }
    }
}

proof fn lemma_exp4_positive(e: nat)
    ensures
        exp4(e) >= 1,
    decreases e,
{
    if e > 0 {
        lemma_exp4_positive((e - 1) as nat);
    }
}

/// Four runs of quads appended one after the other are their concatenation
/// appended at once.
proof fn lemma_four_appends<V>(
    q1: Seq<Quad<V>>,
    q2: Seq<Quad<V>>,
    q3: Seq<Quad<V>>,
    q4: Seq<Quad<V>>,
    m0: MeshData<V>,
    m1: MeshData<V>,
    m2: MeshData<V>,
    m3: MeshData<V>,
    m4: MeshData<V>,
)
    requires
        m1.vertices@ == m0.vertices@ + quad_vertices(q1),
        m2.vertices@ == m1.vertices@ + quad_vertices(q2),
        m3.vertices@ == m2.vertices@ + quad_vertices(q3),
        m4.vertices@ == m3.vertices@ + quad_vertices(q4),
        m1.indices@ == m0.indices@ + quad_run(m0.vertices.len() as int, q1.len()),
        m2.indices@ == m1.indices@ + quad_run(m1.vertices.len() as int, q2.len()),
        m3.indices@ == m2.indices@ + quad_run(m2.vertices.len() as int, q3.len()),
        m4.indices@ == m3.indices@ + quad_run(m3.vertices.len() as int, q4.len()),
    ensures
        m4.vertices@ == m0.vertices@ + quad_vertices(q1 + q2 + q3 + q4),
        m4.indices@ == m0.indices@ + quad_run(m0.vertices.len() as int, (q1 + q2 + q3 + q4).len()),
{
    lemma_quad_vertices_len(q1);
    lemma_quad_vertices_len(q2);
    lemma_quad_vertices_len(q3);
    lemma_quad_vertices_concat(q1, q2);
    lemma_quad_vertices_concat(q1 + q2, q3);
    lemma_quad_vertices_concat(q1 + q2 + q3, q4);
    assert(m4.vertices@ =~= m0.vertices@ + quad_vertices(q1 + q2 + q3 + q4));
    let len0 = m0.vertices.len() as int;
    assert(m1.vertices.len() == len0 + 4 * q1.len());
    assert(m2.vertices.len() == len0 + 4 * (q1.len() + q2.len()));
    assert(m3.vertices.len() == len0 + 4 * (q1.len() + q2.len() + q3.len()));
    lemma_quad_run_concat(len0, q1.len(), q2.len());
    lemma_quad_run_concat(len0, q1.len() + q2.len(), q3.len());
    lemma_quad_run_concat(len0, q1.len() + q2.len() + q3.len(), q4.len());
    assert(m4.indices@ =~= m0.indices@ + quad_run(len0, (q1 + q2 + q3 + q4).len()));
}

/// A run of quads has four vertices per quad.
pub proof fn lemma_quad_vertices_len<V>(quads: Seq<Quad<V>>)
    ensures
        quad_vertices(quads).len() == 4 * quads.len(),
    decreases quads.len(),
{
    if quads.len() > 0 {
        lemma_quad_vertices_len(quads.drop_last());
    }
}

/// The vertices of two runs of quads, one after the other, are the vertices
/// of the first run followed by those of the second.
pub proof fn lemma_quad_vertices_concat<V>(a: Seq<Quad<V>>, b: Seq<Quad<V>>)
    ensures
        quad_vertices(a + b) == quad_vertices(a) + quad_vertices(b),
    decreases b.len(),
{
    if b.len() == 0 {
        assert(a + b =~= a);
        assert(quad_vertices(a) + quad_vertices(b) =~= quad_vertices(a));
    } else {
        let q = b.last();
        assert((a + b).drop_last() =~= a + b.drop_last());
        assert((a + b).last() == q);
        lemma_quad_vertices_concat(a, b.drop_last());
        assert(quad_vertices(a + b) =~= quad_vertices(a) + quad_vertices(b));
    }
}

} // verus!
