//! The order in which the renderer draws objects: one pass per render group,
//! in a fixed group order, the first pass clearing the target, then an
//! optional wireframe pass over every object.

use vstd::prelude::*;

verus! {

/// The shader pipeline that an object is drawn with.
#[derive(PartialEq, Eq, Structural, Clone, Copy, Debug, Hash)]
pub enum RenderGroupType {
    Unlit,
    Lit,
}

/// The groups in the order they are drawn: lit objects, then unlit ones.
pub open spec fn group_order() -> Seq<RenderGroupType> {
    seq![RenderGroupType::Lit, RenderGroupType::Unlit]
}

impl RenderGroupType {
    /// Every group, in the order they are drawn.
    pub fn values() -> (groups: [RenderGroupType; 2])
        ensures
            groups@ == group_order(),
    {
        let groups = [RenderGroupType::Lit, RenderGroupType::Unlit];
        assert(groups@ =~= group_order());
        groups
    }
}

/// What a render pass draws with.
#[derive(PartialEq, Eq, Structural, Clone, Copy, Debug)]
pub enum Pipeline {
    /// The pipeline of a render group.
    Group(RenderGroupType),
    /// Lines along every triangle edge, over what was drawn before.
    Wireframe,
}

/// One render pass: its pipeline, whether it clears colour and depth first
/// (else it draws over them), and the objects it draws, by position in the
/// object list.
pub struct RenderPass {
    pub pipeline: Pipeline,
    pub clear: bool,
    pub objects: Vec<usize>,
}

/// The positions, in increasing order, of the objects of group `group`.
pub open spec fn indices_of(groups: Seq<RenderGroupType>, group: RenderGroupType) -> Seq<usize>
    decreases groups.len(),
{
    if groups.len() == 0 {
        Seq::empty()
    } else {
        let rest = indices_of(groups.drop_last(), group);
        if groups.last() == group {
            rest.push((groups.len() - 1) as usize)
        } else {
            rest
        }
    }
}

/// The positions 0, 1, ..., n - 1.
pub open spec fn all_indices(n: nat) -> Seq<usize> {
    Seq::new(n, |i: int| i as usize)
}

/// The positions of the objects of `group`.
fn objects_of(groups: &Vec<RenderGroupType>, group: RenderGroupType) -> (objects: Vec<usize>)
    ensures
        objects@ == indices_of(groups@, group),
{
    let mut objects: Vec<usize> = Vec::new();
    let mut i: usize = 0;
    while i < groups.len()
        invariant
            i <= groups.len(),
            objects@ == indices_of(groups@.subrange(0, i as int), group),
        decreases groups.len() - i,
    {
        proof {
            assert(groups@.subrange(0, i + 1).drop_last() =~= groups@.subrange(0, i as int));
        }
        if groups[i] == group {
            objects.push(i);
        }
        i = i + 1;
    }
    proof {
        assert(groups@.subrange(0, groups.len() as int) =~= groups@);
    }
    objects
}

/// The passes that draw objects of groups `groups` (object `i` belongs to
/// `groups[i]`): one pass per group in `group_order`, each drawing its own
/// objects in list order, the first clearing the target; then, when
/// `render_wireframes` holds, a wireframe pass over every object in list
/// order, drawing over the rest.
pub fn plan_render_passes(groups: &Vec<RenderGroupType>, render_wireframes: bool) -> (passes: Vec<
    RenderPass,
>)
    ensures
        passes.len() == if render_wireframes {
            3int
        } else {
            2int
        },
        forall|k: int|
            0 <= k < 2 ==> {
                &&& #[trigger] passes@[k].pipeline == Pipeline::Group(group_order()[k])
                &&& passes@[k].clear == (k == 0)
                &&& passes@[k].objects@ == indices_of(groups@, group_order()[k])
            },
        render_wireframes ==> {
            &&& passes@[2].pipeline == Pipeline::Wireframe
            &&& !passes@[2].clear
            &&& passes@[2].objects@ == all_indices(groups.len() as nat)
        },
{
    let order = RenderGroupType::values();
    let mut passes: Vec<RenderPass> = Vec::new();
    let mut k: usize = 0;
    while k < 2
        invariant
            k <= 2,
            order@ == group_order(),
            passes.len() == k,
            forall|j: int|
                0 <= j < k ==> {
                    &&& #[trigger] passes@[j].pipeline == Pipeline::Group(group_order()[j])
                    &&& passes@[j].clear == (j == 0)
                    &&& passes@[j].objects@ == indices_of(groups@, group_order()[j])
                },
        decreases 2 - k,
    {
        let group = order[k];
        let objects = objects_of(groups, group);
        passes.push(RenderPass { pipeline: Pipeline::Group(group), clear: k == 0, objects });
        k = k + 1;
    }
    if render_wireframes {
        let mut objects: Vec<usize> = Vec::new();
        let mut i: usize = 0;
        while i < groups.len()
            invariant
                i <= groups.len(),
                objects@ == all_indices(i as nat),
            decreases groups.len() - i,
        {
            objects.push(i);
            i = i + 1;
            proof {
                assert(objects@ =~= all_indices(i as nat));
            }
        }
        passes.push(RenderPass { pipeline: Pipeline::Wireframe, clear: false, objects });
    }
    passes
}

/// The positions of a group's objects are exactly the positions whose object
/// belongs to that group, in strictly increasing order.
pub proof fn lemma_indices_of(groups: Seq<RenderGroupType>, group: RenderGroupType)
    requires
        groups.len() <= usize::MAX,
    ensures
        forall|i: int|
            0 <= i < groups.len() ==> (groups[i] == group <==> indices_of(groups, group).contains(
                i as usize,
            )),
        forall|k: int|
            0 <= k < indices_of(groups, group).len() ==> #[trigger] indices_of(groups, group)[k]
                < groups.len(),
        forall|j: int, k: int|
            0 <= j < k < indices_of(groups, group).len() ==> #[trigger] indices_of(groups, group)[j]
                < #[trigger] indices_of(groups, group)[k],
    decreases groups.len(),
{
    if groups.len() > 0 {
        let init = groups.drop_last();
        lemma_indices_of(init, group);
        let rest = indices_of(init, group);
        assert forall|i: int| 0 <= i < groups.len() implies (groups[i] == group
            <==> indices_of(groups, group).contains(i as usize)) by {
            if i < groups.len() - 1 {
                assert(init[i] == groups[i]);
                if groups.last() == group {
                    let s = rest.push((groups.len() - 1) as usize);
                    if rest.contains(i as usize) {
                        let w = choose|w: int| 0 <= w < rest.len() && rest[w] == i as usize;
                        assert(s[w] == i as usize);
                    }
                    if s.contains(i as usize) {
                        let w = choose|w: int| 0 <= w < s.len() && s[w] == i as usize;
                        if w < rest.len() {
                            assert(rest[w] == i as usize);
                        }
                    }
                }
            } else {
                if groups.last() == group {
                    let s = rest.push((groups.len() - 1) as usize);
                    assert(s[s.len() - 1] == i as usize);
                } else {
                    if rest.contains(i as usize) {
                        let w = choose|w: int| 0 <= w < rest.len() && rest[w] == i as usize;
                        assert(rest[w] < init.len());
                    }
                }
            }
        }
    }
}

/// Every object is drawn by exactly one of the group passes: the pass of its
/// own group.
pub proof fn lemma_each_object_in_one_group_pass(groups: Seq<RenderGroupType>, i: int)
    requires
        0 <= i < groups.len(),
        groups.len() <= usize::MAX,
    ensures
        indices_of(groups, groups[i]).contains(i as usize),
        forall|g: RenderGroupType| g != groups[i] ==> !(#[trigger] indices_of(groups, g)).contains(
            i as usize,
        ),
        group_order().contains(groups[i]),
{
    lemma_indices_of(groups, groups[i]);
    assert forall|g: RenderGroupType| g != groups[i] implies !(#[trigger] indices_of(
        groups,
        g,
    )).contains(i as usize) by {
        lemma_indices_of(groups, g);
    }
    match groups[i] {
        RenderGroupType::Lit => assert(group_order()[0] == groups[i]),
        RenderGroupType::Unlit => assert(group_order()[1] == groups[i]),
    }
}

/// The size of the surface that the renderer draws to.
#[derive(PartialEq, Eq, Structural, Clone, Copy, Debug)]
pub struct SurfaceSize {
    pub width: u32,
    pub height: u32,
}

impl SurfaceSize {
    /// Takes the new size unless it has no area (a minimised window), and
    /// tells whether it did, that is whether the surface must be set up again.
    pub fn resize(&mut self, width: u32, height: u32) -> (changed: bool)
        ensures
            changed == (width > 0 && height > 0),
            *final(self) == if changed {
                SurfaceSize { width, height }
            } else {
                *old(self)
            },
    {
        if width > 0 && height > 0 {
            self.width = width;
            self.height = height;
            true
        } else {
            false
        }
    }
}

} // verus!
