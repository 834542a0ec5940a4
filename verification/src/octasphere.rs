//! The octahedron sphere: each of the eight faces of an octahedron is split
//! into four triangles, `lod` times over, new corners placed at the
//! (caller-defined) midpoints of the edges.

use vstd::prelude::*;
use crate::mesh::{wrap16, MeshData};
use crate::quad_node::exp4;

verus! {

/// A triangle and, once split, its four sub-triangles.
pub struct TriFace<V> {
    pub vectors: Vec<V>,
    pub children: Option<Vec<TriFace<V>>>,
}

impl<V> TriFace<V> {
    /// The corners of the leaf triangles, leaves taken depth first.
    pub open spec fn leaf_vectors(self) -> Seq<V>
        decreases self,
    {
        match self.children {
            None => self.vectors@,
            Some(cs) => {
                proof {
                    assert(decreases_to!(self => cs));
                }
                children_leaf_vectors(cs@)
            },
        }
    }

    /// Number of leaves.
    pub open spec fn leaf_count(self) -> nat
        decreases self,
    {
        match self.children {
            None => 1,
            Some(cs) => {
                proof {
                    assert(decreases_to!(self => cs));
                }
                children_leaf_count(cs@)
            },
        }
    }
}

/// The corners of the leaf triangles of `faces`, in order.
pub open spec fn children_leaf_vectors<V>(faces: Seq<TriFace<V>>) -> Seq<V>
    decreases faces,
{
    if faces.len() == 0 {
        Seq::empty()
    } else {
        children_leaf_vectors(faces.drop_last()) + faces.last().leaf_vectors()
    }
}

/// Number of leaves of `faces`.
pub open spec fn children_leaf_count<V>(faces: Seq<TriFace<V>>) -> nat
    decreases faces,
{
    if faces.len() == 0 {
        0
    } else {
        children_leaf_count(faces.drop_last()) + faces.last().leaf_count()
    }
}

/// `face` is the triangle with `corners` split `levels` times over: a split
/// triangle (v0, v1, v2) has the four children (v0, m01, m20),
/// (v1, m12, m01), (v2, m20, m12) and (m01, m12, m20), where m01, m12 and m20
/// are what `midpoint` gives for the edges (v0, v1), (v1, v2) and (v2, v0).
pub open spec fn is_subdivision<V, M: Fn(&V, &V) -> V>(
    face: TriFace<V>,
    corners: (V, V, V),
    levels: nat,
    midpoint: M,
) -> bool
    decreases levels,
{
    &&& face.vectors@ == seq![corners.0, corners.1, corners.2]
    &&& if levels == 0 {
        face.children is None
    } else {
        match face.children {
            None => false,
            Some(cs) => {
                let m01 = cs@[0].vectors@[1];
                let m20 = cs@[0].vectors@[2];
                let m12 = cs@[1].vectors@[1];
                let l = (levels - 1) as nat;
                &&& cs.len() == 4
                &&& midpoint.ensures((&corners.0, &corners.1), m01)
                &&& midpoint.ensures((&corners.1, &corners.2), m12)
                &&& midpoint.ensures((&corners.2, &corners.0), m20)
                &&& is_subdivision(cs@[0], (corners.0, m01, m20), l, midpoint)
                &&& is_subdivision(cs@[1], (corners.1, m12, m01), l, midpoint)
                &&& is_subdivision(cs@[2], (corners.2, m20, m12), l, midpoint)
                &&& is_subdivision(cs@[3], (m01, m12, m20), l, midpoint)
            },
        }
    }
}

/// The triangle (a, b, c) split `levels` times over.
pub fn create_face<V: Copy, M: Fn(&V, &V) -> V>(
    a: V,
    b: V,
    c: V,
    levels: usize,
    midpoint: &M,
) -> (face: TriFace<V>)
    requires
        forall|x: &V, y: &V| #[trigger] midpoint.requires((x, y)),
    ensures
        is_subdivision(face, (a, b, c), levels as nat, *midpoint),
    decreases levels,
{
    if levels == 0 {
        return TriFace { vectors: vec![a, b, c], children: None };
    }
    let m01 = midpoint(&a, &b);
    let m12 = midpoint(&b, &c);
    let m20 = midpoint(&c, &a);
    let children = vec![
        create_face(a, m01, m20, levels - 1, midpoint),
        create_face(b, m12, m01, levels - 1, midpoint),
        create_face(c, m20, m12, levels - 1, midpoint),
        create_face(m01, m12, m20, levels - 1, midpoint),
    ];
    TriFace { vectors: vec![a, b, c], children: Some(children) }
}

/// A triangle split `levels` times over has 4^levels leaves, so
/// 3 * 4^levels leaf corners.
pub proof fn lemma_subdivision_size<V, M: Fn(&V, &V) -> V>(
    face: TriFace<V>,
    corners: (V, V, V),
    levels: nat,
    midpoint: M,
)
    requires
        is_subdivision(face, corners, levels, midpoint),
    ensures
        face.leaf_count() == exp4(levels),
        face.leaf_vectors().len() == 3 * exp4(levels),
    decreases levels,
{
    if levels > 0 {
        let cs = face.children.unwrap();
        let m01 = cs@[0].vectors@[1];
        let m20 = cs@[0].vectors@[2];
        let m12 = cs@[1].vectors@[1];
        let l = (levels - 1) as nat;
        lemma_subdivision_size(cs@[0], (corners.0, m01, m20), l, midpoint);
        lemma_subdivision_size(cs@[1], (corners.1, m12, m01), l, midpoint);
        lemma_subdivision_size(cs@[2], (corners.2, m20, m12), l, midpoint);
        lemma_subdivision_size(cs@[3], (m01, m12, m20), l, midpoint);
        lemma_four_children(cs@);
    }
}

proof fn lemma_four_children<V>(cs: Seq<TriFace<V>>)
    requires
        cs.len() == 4,
    ensures
        children_leaf_count(cs) == cs[0].leaf_count() + cs[1].leaf_count() + cs[2].leaf_count()
            + cs[3].leaf_count(),
        children_leaf_vectors(cs) == cs[0].leaf_vectors() + cs[1].leaf_vectors()
            + cs[2].leaf_vectors() + cs[3].leaf_vectors(),
{
    let t1 = cs.subrange(0, 1);
    let t2 = cs.subrange(0, 2);
    let t3 = cs.subrange(0, 3);
    assert(t1.drop_last() =~= Seq::<TriFace<V>>::empty());
    assert(t2.drop_last() =~= t1);
    assert(t3.drop_last() =~= t2);
    assert(cs.drop_last() =~= t3);
    let e = Seq::<TriFace<V>>::empty();
    assert(children_leaf_vectors(e) == Seq::<V>::empty());
    assert(children_leaf_count(e) == 0);
    assert(t1.last() == cs[0]);
    assert(children_leaf_vectors(t1) == children_leaf_vectors(e) + cs[0].leaf_vectors());
    assert(children_leaf_vectors(t1) =~= cs[0].leaf_vectors());
    assert(children_leaf_count(t1) == cs[0].leaf_count());
    assert(t2.last() == cs[1] && t3.last() == cs[2] && cs.last() == cs[3]);
    assert(children_leaf_vectors(t2) == children_leaf_vectors(t1) + cs[1].leaf_vectors());
    assert(children_leaf_vectors(t3) == children_leaf_vectors(t2) + cs[2].leaf_vectors());
    assert(children_leaf_vectors(cs) == children_leaf_vectors(t3) + cs[3].leaf_vectors());
    assert(children_leaf_count(t2) == children_leaf_count(t1) + cs[1].leaf_count());
    assert(children_leaf_count(t3) == children_leaf_count(t2) + cs[2].leaf_count());
    assert(children_leaf_count(cs) == children_leaf_count(t3) + cs[3].leaf_count());
}

/// Every index of `mesh` is its own position modulo 2^16, one per vertex.
pub open spec fn sequentially_indexed<V>(mesh: MeshData<V>) -> bool {
    &&& mesh.indices.len() == mesh.vertices.len()
    &&& forall|i: int| 0 <= i < mesh.indices.len() ==> #[trigger] mesh.indices@[i] == wrap16(i)
}

/// Appends the corners of every leaf triangle of `face`, depth first, each
/// indexed on its own.
fn populate_mesh_data<V: Copy>(face: &TriFace<V>, mesh: &mut MeshData<V>)
    requires
        sequentially_indexed(*old(mesh)),
    ensures
        sequentially_indexed(*final(mesh)),
        final(mesh).vertices@ == old(mesh).vertices@ + face.leaf_vectors(),
    decreases face,
{
    match &face.children {
        Some(children) => {
            let ghost start = mesh.vertices@;
            let mut i: usize = 0;
            while i < children.len()
                invariant
                    face.children == Some(*children),
                    i <= children.len(),
                    sequentially_indexed(*mesh),
                    mesh.vertices@ == start + children_leaf_vectors(children@.subrange(0, i as int)),
                decreases children.len() - i,
            {
                proof {
                    assert(decreases_to!(face => face.children));
                    assert(face.children->0 == *children);
                    assert(decreases_to!(face.children => face.children->0));
                    assert(decreases_to!(*children => children@));
                    assert(decreases_to!(children@ => children@[i as int]));
                }
                populate_mesh_data(&children[i], mesh);
                proof {
                    let next = children@.subrange(0, i + 1);
                    assert(next.drop_last() =~= children@.subrange(0, i as int));
                    assert(mesh.vertices@ =~= start + children_leaf_vectors(next));
                }
                i = i + 1;
            }
            proof {
                assert(children@.subrange(0, children.len() as int) =~= children@);
            }
        },
        None => {
            let ghost start = mesh.vertices@;
            let mut j: usize = 0;
            while j < face.vectors.len()
                invariant
                    j <= face.vectors.len(),
                    sequentially_indexed(*mesh),
                    mesh.vertices@ == start + face.vectors@.subrange(0, j as int),
                decreases face.vectors.len() - j,
            {
                let vertex_count = mesh.vertices.len();
                mesh.vertices.push(face.vectors[j]);
                mesh.indices.push((vertex_count % 65536) as u16);
                proof {
                    assert(mesh.vertices@ =~= start + face.vectors@.subrange(0, j + 1));
                }
                j = j + 1;
            }
            proof {
                assert(face.vectors@.subrange(0, face.vectors.len() as int) =~= face.vectors@);
            }
        },
    }
}

/// The mesh of a face: the corners of its leaf triangles, depth first, each
/// vertex indexed on its own.
pub fn get_mesh_data<V: Copy>(face: &TriFace<V>) -> (mesh: MeshData<V>)
    ensures
        mesh.vertices@ == face.leaf_vectors(),
        sequentially_indexed(mesh),
{
    let mut mesh: MeshData<V> = MeshData::new();
    populate_mesh_data(face, &mut mesh);
    assert(mesh.vertices@ =~= face.leaf_vectors());
    mesh
}

/// The corners of octahedron face `k`, faces in the order
/// (forward, right, up), (forward, right, down), (forward, left, up),
/// (forward, left, down), (back, right, up), (back, right, down),
/// (back, left, up), (back, left, down).
pub open spec fn octant_corners<V>(axes: (V, V, V, V, V, V), k: int) -> (V, V, V) {
    let (forward, back, right, left, up, down) = axes;
    let x = if k < 4 { forward } else { back };
    let y = if k % 4 < 2 { right } else { left };
    let z = if k % 2 == 0 { up } else { down };
    (x, y, z)
}

/// The corner triple that takes forward or back (`sx`), right or left
/// (`sy`) and up or down (`sz`).
pub open spec fn octant_choice<V>(axes: (V, V, V, V, V, V), sx: bool, sy: bool, sz: bool) -> (V, V, V) {
    (if sx { axes.0 } else { axes.1 }, if sy { axes.2 } else { axes.3 }, if sz {
        axes.4
    } else {
        axes.5
    })
}

/// The number of the face whose corners take forward or back (`sx`), right
/// or left (`sy`) and up or down (`sz`).
pub open spec fn octant_of_choice(sx: bool, sy: bool, sz: bool) -> int {
    (if sx { 0int } else { 4int }) + (if sy { 0int } else { 2int }) + (if sz { 0int } else { 1int })
}

/// The eight octants of the octahedron are built once each: where the two
/// directions of each axis differ, the eight corner triples are pairwise
/// distinct, each takes one direction of every axis (x from forward and
/// back, y from right and left, z from up and down), and every such choice
/// is the corner triple of face `octant_of_choice` of it.
pub proof fn lemma_octants_once_each<V>(axes: (V, V, V, V, V, V))
    requires
        axes.0 != axes.1,
        axes.2 != axes.3,
        axes.4 != axes.5,
    ensures
        forall|j: int, k: int|
            0 <= j < 8 && 0 <= k < 8 && j != k ==> #[trigger] octant_corners(axes, j)
                != #[trigger] octant_corners(axes, k),
        forall|k: int|
            0 <= k < 8 ==> {
                let c = #[trigger] octant_corners(axes, k);
                &&& c.0 == axes.0 || c.0 == axes.1
                &&& c.1 == axes.2 || c.1 == axes.3
                &&& c.2 == axes.4 || c.2 == axes.5
            },
        forall|sx: bool, sy: bool, sz: bool|
            0 <= #[trigger] octant_of_choice(sx, sy, sz) < 8 && octant_corners(
                axes,
                octant_of_choice(sx, sy, sz),
            ) == octant_choice(axes, sx, sy, sz),
{
    assert forall|j: int, k: int|
        0 <= j < 8 && 0 <= k < 8 && j != k implies #[trigger] octant_corners(axes, j)
        != #[trigger] octant_corners(axes, k) by {
        if (j < 4) != (k < 4) {
        } else if (j % 4 < 2) != (k % 4 < 2) {
        } else {
            assert(j % 2 != k % 2);
        }
    }
    assert forall|sx: bool, sy: bool, sz: bool|
        0 <= #[trigger] octant_of_choice(sx, sy, sz) < 8 && octant_corners(
            axes,
            octant_of_choice(sx, sy, sz),
        ) == octant_choice(axes, sx, sy, sz) by {
        let k = octant_of_choice(sx, sy, sz);
        assert(octant_corners(axes, k).0 == if sx { axes.0 } else { axes.1 });
        assert(octant_corners(axes, k).1 == if sy { axes.2 } else { axes.3 });
        assert(octant_corners(axes, k).2 == if sz { axes.4 } else { axes.5 });
    }
}

/// `mesh` is the mesh of the triangle with `corners` split `levels` times
/// over by `midpoint`.
pub open spec fn is_face_mesh<V, M: Fn(&V, &V) -> V>(
    mesh: MeshData<V>,
    corners: (V, V, V),
    levels: nat,
    midpoint: M,
) -> bool {
    &&& sequentially_indexed(mesh)
    &&& exists|face: TriFace<V>|
        #[trigger] is_subdivision(face, corners, levels, midpoint) && mesh.vertices@
            == face.leaf_vectors()
}

/// The meshes of the eight faces of the octahedron with unit directions
/// `forward`, `back`, `right`, `left`, `up` and `down`, each face split `lod`
/// times over.
pub fn create_octasphere_mesh_data<V: Copy, M: Fn(&V, &V) -> V>(
    forward: V,
    back: V,
    right: V,
    left: V,
    up: V,
    down: V,
    lod: usize,
    midpoint: &M,
) -> (meshes: Vec<MeshData<V>>)
    requires
        forall|x: &V, y: &V| #[trigger] midpoint.requires((x, y)),
    ensures
        meshes.len() == 8,
        forall|k: int|
            0 <= k < 8 ==> is_face_mesh(
                #[trigger] meshes@[k],
                octant_corners((forward, back, right, left, up, down), k),
                lod as nat,
                *midpoint,
            ),
{
    let ghost axes = (forward, back, right, left, up, down);
    let xs = [forward, forward, forward, forward, back, back, back, back];
    let ys = [right, right, left, left, right, right, left, left];
    let zs = [up, down, up, down, up, down, up, down];
    let mut meshes: Vec<MeshData<V>> = Vec::new();
    let mut k: usize = 0;
    while k < 8
        invariant
            k <= 8,
            meshes.len() == k,
            axes == (forward, back, right, left, up, down),
            forall|x: &V, y: &V| #[trigger] midpoint.requires((x, y)),
            forall|j: int|
                0 <= j < 8 ==> (xs@[j], ys@[j], zs@[j]) == #[trigger] octant_corners(axes, j),
            forall|j: int|
                0 <= j < k ==> is_face_mesh(
                    #[trigger] meshes@[j],
                    octant_corners(axes, j),
                    lod as nat,
                    *midpoint,
                ),
        decreases 8 - k,
    {
        let face = create_face(xs[k], ys[k], zs[k], lod, midpoint);
        let mesh = get_mesh_data(&face);
        proof {
            assert(octant_corners(axes, k as int) == (xs@[k as int], ys@[k as int], zs@[
                k as int
            ]));
            assert(is_subdivision(face, octant_corners(axes, k as int), lod as nat, *midpoint));
            assert(is_face_mesh(mesh, octant_corners(axes, k as int), lod as nat, *midpoint));
        }
        meshes.push(mesh);
        k = k + 1;
    }
    meshes
}

} // verus!
