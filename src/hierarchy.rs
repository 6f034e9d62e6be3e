//! Discovery of mesh-bearing descendants in a scene tree.
//!
//! Nodes live in an arena and are named by their index. Every child has a larger index
//! than its parent, which is what a tree built parent-first gives, so the tree has no
//! cycle and every walk down from a node ends.

use vstd::prelude::*;

verus! {

/// How the vertices of a mesh form primitives.
#[derive(Clone, Copy, Debug, PartialEq, Eq, Structural)]
pub enum PrimitiveTopology {
    PointList,
    LineList,
    LineStrip,
    TriangleList,
    TriangleStrip,
}

/// One node of the tree: its children, in order, and the mesh it owns, if any.
pub struct SceneNode {
    children: Vec<usize>,
    mesh: Option<usize>,
}

/// A scene tree together with the topology of each mesh that its nodes may refer to.
pub struct Hierarchy {
    nodes: Vec<SceneNode>,
    meshes: Vec<PrimitiveTopology>,
}

impl Hierarchy {
    /// The number of nodes.
    pub closed spec fn node_count(&self) -> nat {
        self.nodes@.len()
    }

    /// The number of meshes.
    pub closed spec fn mesh_count(&self) -> nat {
        self.meshes@.len()
    }

    /// The children of node `n`, in order.
    pub closed spec fn children_of(&self, n: int) -> Seq<usize> {
        self.nodes@[n].children@
    }

    /// The mesh that node `n` owns.
    pub closed spec fn mesh_of(&self, n: int) -> Option<usize> {
        self.nodes@[n].mesh
    }

    /// The topology of mesh `m`.
    pub closed spec fn topology_of(&self, m: int) -> PrimitiveTopology {
        self.meshes@[m]
    }

    /// Every child index is a node after its parent, and every mesh reference is a mesh.
    pub open spec fn wf(&self) -> bool {
        &&& forall|n: int, j: int|
            0 <= n < self.node_count() && 0 <= j < self.children_of(n).len() ==> n
                < #[trigger] self.children_of(n)[j] < self.node_count()
        &&& forall|n: int|
            0 <= n < self.node_count() && (#[trigger] self.mesh_of(n)).is_some() ==> self.mesh_of(
                n,
            ).unwrap() < self.mesh_count()
    }

    /// A tree of one root node, index 0, owning no mesh, and no meshes.
    pub fn new() -> (r: Hierarchy)
        ensures
            r.wf(),
            r.node_count() == 1,
            r.mesh_count() == 0,
            r.children_of(0) == Seq::<usize>::empty(),
            r.mesh_of(0) == None::<usize>,
    {
        let mut nodes: Vec<SceneNode> = Vec::new();
        nodes.push(SceneNode { children: Vec::new(), mesh: None });
        Hierarchy { nodes, meshes: Vec::new() }
    }

    /// Registers a mesh of the given topology and returns its index.
    pub fn add_mesh(&mut self, topology: PrimitiveTopology) -> (r: usize)
        requires
            old(self).wf(),
            old(self).mesh_count() < usize::MAX,
        ensures
            final(self).wf(),
            r == old(self).mesh_count(),
            final(self).mesh_count() == old(self).mesh_count() + 1,
            final(self).topology_of(r as int) == topology,
            forall|m: int| 0 <= m < old(self).mesh_count() ==> final(self).topology_of(m) == old(self).topology_of(m),
            final(self).node_count() == old(self).node_count(),
            forall|n: int| 0 <= n < old(self).node_count() ==> final(self).children_of(n) == old(self).children_of(n) && final(self).mesh_of(n) == old(self).mesh_of(n),
    {
        let r = self.meshes.len();
        self.meshes.push(topology);
        proof {
            assert forall|n: int, j: int|
                0 <= n < self.node_count() && 0 <= j < self.children_of(n).len() implies n
                < #[trigger] self.children_of(n)[j] < self.node_count() by {
                assert(self.children_of(n) == old(self).children_of(n));
            }
            assert forall|n: int|
                0 <= n < self.node_count() && (#[trigger] self.mesh_of(n)).is_some() implies self.mesh_of(
                n,
            ).unwrap() < self.mesh_count() by {
                assert(old(self).mesh_of(n) == self.mesh_of(n));
            }
        }
        r
    }

    /// Appends a new last child to `parent`, owning `mesh`, and returns its index.
    pub fn add_child(&mut self, parent: usize, mesh: Option<usize>) -> (r: usize)
        requires
            old(self).wf(),
            parent < old(self).node_count(),
            old(self).node_count() < usize::MAX,
            mesh.is_some() ==> mesh.unwrap() < old(self).mesh_count(),
        ensures
            final(self).wf(),
            r == old(self).node_count(),
            final(self).node_count() == old(self).node_count() + 1,
            final(self).mesh_count() == old(self).mesh_count(),
            forall|m: int| 0 <= m < old(self).mesh_count() ==> final(self).topology_of(m) == old(self).topology_of(m),
            final(self).children_of(r as int) == Seq::<usize>::empty(),
            final(self).mesh_of(r as int) == mesh,
            final(self).children_of(parent as int) == old(self).children_of(parent as int).push(r),
            forall|n: int| 0 <= n < old(self).node_count() ==> final(self).mesh_of(n) == old(self).mesh_of(n),
            forall|n: int| 0 <= n < old(self).node_count() && n != parent ==> final(self).children_of(n) == old(self).children_of(n),
    {
        let r = self.nodes.len();
        let mut kids = self.nodes[parent].children.clone();
        let parent_mesh = self.nodes[parent].mesh;
        kids.push(r);
        self.nodes.set(parent, SceneNode { children: kids, mesh: parent_mesh });
        self.nodes.push(SceneNode { children: Vec::new(), mesh });
        proof {
            assert forall|n: int, j: int|
                0 <= n < self.node_count() && 0 <= j < self.children_of(n).len() implies n
                < #[trigger] self.children_of(n)[j] < self.node_count() by {
                if n < r && n != parent {
                    assert(self.children_of(n) == old(self).children_of(n));
                    assert(old(self).children_of(n)[j] < old(self).node_count());
                } else if n == parent && j < old(self).children_of(n).len() {
                    assert(self.children_of(n)[j] == old(self).children_of(n)[j]);
                    assert(old(self).children_of(n)[j] < old(self).node_count());
                }
            }
            assert forall|n: int|
                0 <= n < self.node_count() && (#[trigger] self.mesh_of(n)).is_some() implies self.mesh_of(
                n,
            ).unwrap() < self.mesh_count() by {
                if n < r {
                    assert(old(self).mesh_of(n) == self.mesh_of(n));
                }
            }
        }
        r
    }
}

/// The children among `kids` that own a mesh, each with its mesh, in order; `None` where
/// one of those meshes is not a triangle list.
pub open spec fn direct_matches(h: &Hierarchy, kids: Seq<usize>) -> Option<Seq<(usize, usize)>>
    decreases kids.len(),
{
    if kids.len() == 0 {
        Some(Seq::empty())
    } else {
        match direct_matches(h, kids.drop_last()) {
            None => None,
            Some(prev) => {
                let c = kids.last();
                match h.mesh_of(c as int) {
                    None => Some(prev),
                    Some(m) => if h.topology_of(m as int) == PrimitiveTopology::TriangleList {
                        Some(prev.push((c, m)))
                    } else {
                        None
                    },
                }
            },
        }
    }
}

/// The results of searching below each of the first `k` children of `p`, joined in
/// child order.
pub open spec fn deeper_matches(h: &Hierarchy, p: int, k: int) -> Option<Seq<(usize, usize)>>
    decreases h.node_count() - p, k,
{
    if k <= 0 || p < 0 || p >= h.node_count() || k > h.children_of(p).len() {
        Some(Seq::empty())
    } else {
        let c = h.children_of(p)[k - 1] as int;
        if c <= p || c >= h.node_count() {
            None
        } else {
            match deeper_matches(h, p, k - 1) {
                None => None,
                Some(prev) => match search_spec(h, c) {
                    None => None,
                    Some(sub) => Some(prev + sub),
                },
            }
        }
    }
}

/// Every mesh-bearing node strictly below `p`, with its mesh: first the direct children
/// that own one, in child order, then what lies below each child, in child order.
/// `None` where one of those meshes is not a triangle list.
pub open spec fn search_spec(h: &Hierarchy, p: int) -> Option<Seq<(usize, usize)>>
    decreases h.node_count() - p, h.children_of(p).len() + 1,
{
    if p < 0 || p >= h.node_count() {
        Some(Seq::empty())
    } else {
        match direct_matches(h, h.children_of(p)) {
            None => None,
            Some(direct) => match deeper_matches(h, p, h.children_of(p).len() as int) {
                None => None,
                Some(deeper) => Some(direct + deeper),
            },
        }
    }
}

/// The view of an optional list of matches.
pub open spec fn matches_view(r: Option<Vec<(usize, usize)>>) -> Option<Seq<(usize, usize)>> {
    match r {
        Some(v) => Some(v@),
        None => None,
    }
}

fn collect_direct(h: &Hierarchy, p: usize) -> (r: Option<Vec<(usize, usize)>>)
    requires
        h.wf(),
        p < h.node_count(),
    ensures
        matches_view(r) == direct_matches(h, h.children_of(p as int)),
{
    let kids = &h.nodes[p].children;
    let mut out: Vec<(usize, usize)> = Vec::new();
    let mut i: usize = 0;
    while i < kids.len()
        invariant
            h.wf(),
            p < h.node_count(),
            kids@ == h.children_of(p as int),
            0 <= i <= kids@.len(),
            direct_matches(h, kids@.take(i as int)) == Some(out@),
        decreases kids@.len() - i,
    {
        let c = kids[i];
        assert(kids@.take(i + 1).drop_last() =~= kids@.take(i as int));
        assert(c < h.node_count());
        match h.nodes[c].mesh {
            None => {},
            Some(m) => {
                if h.meshes[m] == PrimitiveTopology::TriangleList {
                    out.push((c, m));
                } else {
                    assert(direct_matches(h, kids@.take(i + 1)) is None);
                    proof {
                        lemma_direct_none_extends(h, kids@, i + 1);
                    }
                    assert(kids@.take(kids@.len() as int) =~= kids@);
                    return None;
                }
            },
        }
        i = i + 1;
    }
    assert(kids@.take(kids@.len() as int) =~= kids@);
    Some(out)
}

proof fn lemma_direct_none_extends(h: &Hierarchy, kids: Seq<usize>, k: int)
    requires
        0 <= k <= kids.len(),
        direct_matches(h, kids.take(k)) is None,
    ensures
        forall|k2: int| k <= k2 <= kids.len() ==> #[trigger] direct_matches(h, kids.take(k2)) is None,
    decreases kids.len() - k,
{
    if k < kids.len() {
        assert(kids.take(k + 1).drop_last() =~= kids.take(k));
        lemma_direct_none_extends(h, kids, k + 1);
    }
}

fn search_from(h: &Hierarchy, p: usize) -> (r: Option<Vec<(usize, usize)>>)
    requires
        h.wf(),
        p < h.node_count(),
    ensures
        matches_view(r) == search_spec(h, p as int),
    decreases h.node_count() - p,
{
    let direct = collect_direct(h, p);
    let mut result = match direct {
        None => return None,
        Some(d) => d,
    };
    let kids = &h.nodes[p].children;
    let mut deeper: Vec<(usize, usize)> = Vec::new();
    let mut i: usize = 0;
    while i < kids.len()
        invariant
            h.wf(),
            p < h.node_count(),
            kids@ == h.children_of(p as int),
            0 <= i <= kids@.len(),
            deeper_matches(h, p as int, i as int) == Some(deeper@),
        decreases kids@.len() - i,
    {
        let c = kids[i];
        assert(p < c < h.node_count());
        match search_from(h, c) {
            None => {
                proof {
                    assert(deeper_matches(h, p as int, i + 1) is None);
                    lemma_deeper_none_extends(h, p as int, i + 1);
                    assert(deeper_matches(h, p as int, kids@.len() as int) is None);
                }
                return None;
            },
            Some(mut sub) => {
                deeper.append(&mut sub);
            },
        }
        i = i + 1;
    }
    result.append(&mut deeper);
    Some(result)
}

proof fn lemma_deeper_none_extends(h: &Hierarchy, p: int, k: int)
    requires
        h.wf(),
        0 <= p < h.node_count(),
        0 <= k <= h.children_of(p).len(),
        deeper_matches(h, p, k) is None,
    ensures
        forall|k2: int| k <= k2 <= h.children_of(p).len() ==> #[trigger] deeper_matches(h, p, k2) is None,
    decreases h.children_of(p).len() - k,
{
    if k < h.children_of(p).len() {
        lemma_deeper_none_extends(h, p, k + 1);
    }
}

/// Every mesh-bearing node strictly below `parent`, with its mesh: first the direct
/// children that own one, in child order, then, for each child in order, what this
/// search finds below it. `None` where one of those meshes is not a triangle list.
pub fn search_in_children(h: &Hierarchy, parent: usize) -> (r: Option<Vec<(usize, usize)>>)
    requires
        h.wf(),
        parent < h.node_count(),
    ensures
        matches_view(r) == search_spec(h, parent as int),
{
    search_from(h, parent)
}

/// A node without children has nothing below it: the search finds an empty list,
/// not a failure.
pub proof fn lemma_leaf_search_empty(h: &Hierarchy, p: int)
    requires
        h.wf(),
        0 <= p < h.node_count(),
        h.children_of(p).len() == 0,
    ensures
        search_spec(h, p) == Some(Seq::<(usize, usize)>::empty()),
{
    assert(Seq::<(usize, usize)>::empty() + Seq::<(usize, usize)>::empty() =~= Seq::<(usize, usize)>::empty());
}

proof fn lemma_direct_contains(h: &Hierarchy, kids: Seq<usize>, j: int)
    requires
        0 <= j < kids.len(),
        direct_matches(h, kids) is Some,
        h.mesh_of(kids[j] as int) is Some,
    ensures
        exists|a: int|
            0 <= a < direct_matches(h, kids).unwrap().len() && #[trigger] direct_matches(
                h,
                kids,
            ).unwrap()[a] == (kids[j], h.mesh_of(kids[j] as int).unwrap()),
    decreases kids.len(),
{
    let d = direct_matches(h, kids).unwrap();
    let prev = direct_matches(h, kids.drop_last()).unwrap();
    if j == kids.len() - 1 {
        assert(d[prev.len() as int] == (kids[j], h.mesh_of(kids[j] as int).unwrap()));
    } else {
        lemma_direct_contains(h, kids.drop_last(), j);
        let a = choose|a: int|
            0 <= a < prev.len() && #[trigger] prev[a] == (kids.drop_last()[j], h.mesh_of(
                kids.drop_last()[j] as int,
            ).unwrap());
        assert(d[a] == prev[a]);
    }
}

proof fn lemma_deeper_contains(h: &Hierarchy, p: int, k: int, j: int, x: int)
    requires
        h.wf(),
        0 <= p < h.node_count(),
        0 <= j < k <= h.children_of(p).len(),
        deeper_matches(h, p, k) is Some,
    ensures
        search_spec(h, h.children_of(p)[j] as int) is Some,
        0 <= x < search_spec(h, h.children_of(p)[j] as int).unwrap().len() ==> exists|b: int|
            0 <= b < deeper_matches(h, p, k).unwrap().len() && #[trigger] deeper_matches(
                h,
                p,
                k,
            ).unwrap()[b] == search_spec(h, h.children_of(p)[j] as int).unwrap()[x],
    decreases k,
{
    let e = deeper_matches(h, p, k).unwrap();
    let prev = deeper_matches(h, p, k - 1).unwrap();
    let c = h.children_of(p)[k - 1] as int;
    let sub = search_spec(h, c).unwrap();
    assert(e == prev + sub);
    if j == k - 1 {
        if 0 <= x < sub.len() {
            assert(e[prev.len() + x] == sub[x]);
        }
    } else {
        lemma_deeper_contains(h, p, k - 1, j, x);
        let sj = search_spec(h, h.children_of(p)[j] as int).unwrap();
        if 0 <= x < sj.len() {
            let b = choose|b: int| 0 <= b < prev.len() && #[trigger] prev[b] == sj[x];
            assert(e[b] == prev[b]);
        }
    }
}

/// Where a direct child of `p` and a child of that child both own a mesh, a successful
/// search below `p` lists the child's mesh before the grandchild's.
pub proof fn lemma_child_before_grandchild(h: &Hierarchy, p: int, j: int, g: int)
    requires
        h.wf(),
        0 <= p < h.node_count(),
        0 <= j < h.children_of(p).len(),
        0 <= g < h.children_of(h.children_of(p)[j] as int).len(),
        h.mesh_of(h.children_of(p)[j] as int) is Some,
        h.mesh_of(h.children_of(h.children_of(p)[j] as int)[g] as int) is Some,
        search_spec(h, p) is Some,
    ensures
        ({
            let s = search_spec(h, p).unwrap();
            let c = h.children_of(p)[j];
            let gc = h.children_of(c as int)[g];
            exists|a: int, b: int|
                0 <= a < b < s.len() && #[trigger] s[a] == (c, h.mesh_of(c as int).unwrap())
                    && #[trigger] s[b] == (gc, h.mesh_of(gc as int).unwrap())
        }),
{
    let kids = h.children_of(p);
    let c = kids[j];
    let gc = h.children_of(c as int)[g];
    let s = search_spec(h, p).unwrap();
    let direct = direct_matches(h, kids).unwrap();
    let deeper = deeper_matches(h, p, kids.len() as int).unwrap();
    assert(s == direct + deeper);
    lemma_direct_contains(h, kids, j);
    let a = choose|a: int|
        0 <= a < direct.len() && #[trigger] direct[a] == (c, h.mesh_of(c as int).unwrap());
    assert(s[a] == direct[a]);
    assert(p < c < h.node_count());
    lemma_deeper_contains(h, p, kids.len() as int, j, 0);
    let sub = search_spec(h, c as int).unwrap();
    let cdirect = direct_matches(h, h.children_of(c as int)).unwrap();
    assert(sub == cdirect + deeper_matches(h, c as int, h.children_of(c as int).len() as int).unwrap());
    lemma_direct_contains(h, h.children_of(c as int), g);
    let x = choose|x: int|
        0 <= x < cdirect.len() && #[trigger] cdirect[x] == (gc, h.mesh_of(gc as int).unwrap());
    assert(sub[x] == cdirect[x]);
    lemma_deeper_contains(h, p, kids.len() as int, j, x);
    let b = choose|b: int| 0 <= b < deeper.len() && #[trigger] deeper[b] == sub[x];
    assert(s[direct.len() + b] == deeper[b]);
    assert(s[a] == (c, h.mesh_of(c as int).unwrap()));
    assert(s[direct.len() + b] == (gc, h.mesh_of(gc as int).unwrap()));
}

} // verus!
