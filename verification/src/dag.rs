//! The build graph: a rooted tree of payload-carrying nodes, the
//! children-first hierarchical composer, and lookup by node name.

use vstd::prelude::*;

verus! {

/// A named, tree-shaped dependency graph.  Each node holds a payload and the
/// ordered list of child graphs it is composed from ("depends on").
pub struct Dag<F> {
    pub node: F,
    pub directed_edges: Vec<Dag<F>>,
}

/// Capability a payload type may provide: a stable, externally meaningful
/// name (for example a module name), used to locate a node anywhere in a
/// [`Dag`].
pub trait NamedNode {
    spec fn spec_name(&self) -> Seq<char>;

    fn name(&self) -> (r: String)
        ensures
            r@ == self.spec_name(),
    ;
}

/// Number of nodes in the graph (the root and all its descendants).
pub open spec fn node_count<F>(d: Dag<F>) -> nat
    decreases d,
{
    1 + node_count_seq(d.directed_edges@)
}

/// Total number of nodes over a sequence of graphs.
pub open spec fn node_count_seq<F>(s: Seq<Dag<F>>) -> nat
    decreases s,
{
    if s.len() == 0 {
        0
    } else {
        node_count(s[0]) + node_count_seq(s.drop_first())
    }
}

/// Two graphs have the same shape: the same number of children at the root
/// and, position by position, children of the same shape.
pub open spec fn same_shape<M, F>(a: Dag<M>, b: Dag<F>) -> bool
    decreases a,
{
    &&& a.directed_edges@.len() == b.directed_edges@.len()
    &&& forall|i: int|
        0 <= i < a.directed_edges@.len() ==> same_shape(
            #[trigger] a.directed_edges@[i],
            b.directed_edges@[i],
        )
}

/// The result graph `r` was generated from `d`: it has the same shape, and
/// each payload of `r` is a possible output of `g` applied to the matching
/// payload of `d` and the list of (original child payload, generated child
/// payload) pairs.
pub open spec fn generated<M, F, G: Fn(&M, Vec<(&M, &F)>) -> F>(g: G, d: Dag<M>, r: Dag<F>) -> bool
    decreases d,
{
    &&& r.directed_edges@.len() == d.directed_edges@.len()
    &&& forall|i: int|
        0 <= i < d.directed_edges@.len() ==> generated(
            g,
            #[trigger] d.directed_edges@[i],
            r.directed_edges@[i],
        )
    &&& exists|subs: Vec<(&M, &F)>|
        {
            &&& subs@.len() == d.directed_edges@.len()
            &&& (forall|i: int|
                0 <= i < subs@.len() ==> *(#[trigger] subs@[i]).0 == d.directed_edges@[i].node
                    && *subs@[i].1 == r.directed_edges@[i].node)
            &&& call_ensures(g, (&d.node, subs), r.node)
        }
}

/// Children-first ("hierarchical") composition: transform every child graph
/// first, then generate the current node's payload from its original payload
/// and the pairs of (original, transformed) child payloads.  A parent's build
/// plan needs the concrete artifacts of its children, which is why the
/// transform cannot run top-down.  The result is structurally isomorphic to
/// the input: same node count, same parent/child relationships.
pub fn hierarchical<M, F, G: Fn(&M, Vec<(&M, &F)>) -> F>(dag: &Dag<M>, flat_flow_gen: &G) -> (r:
    Dag<F>)
    requires
        forall|m: &M, subs: Vec<(&M, &F)>| call_requires(*flat_flow_gen, (m, subs)),
    ensures
        same_shape(*dag, r),
        generated(*flat_flow_gen, *dag, r),
    decreases *dag,
{
    let n: usize = dag.directed_edges.len();
    let mut new_edges: Vec<Dag<F>> = Vec::new();
    let mut i: usize = 0;
    while i < n
        invariant
            n == dag.directed_edges@.len(),
            0 <= i <= n,
            new_edges@.len() == i,
            forall|m: &M, subs: Vec<(&M, &F)>| call_requires(*flat_flow_gen, (m, subs)),
            forall|j: int|
                0 <= j < i ==> same_shape(#[trigger] dag.directed_edges@[j], new_edges@[j]),
            forall|j: int|
                0 <= j < i ==> generated(
                    *flat_flow_gen,
                    #[trigger] dag.directed_edges@[j],
                    new_edges@[j],
                ),
        decreases n - i,
    {
        let sub = hierarchical(&dag.directed_edges[i], flat_flow_gen);
        new_edges.push(sub);
        i += 1;
    }
    let mut sub_blocks: Vec<(&M, &F)> = Vec::new();
    let mut j: usize = 0;
    while j < n
        invariant
            n == dag.directed_edges@.len(),
            n == new_edges@.len(),
            0 <= j <= n,
            sub_blocks@.len() == j,
            forall|k: int|
                0 <= k < j ==> *(#[trigger] sub_blocks@[k]).0 == dag.directed_edges@[k].node
                    && *sub_blocks@[k].1 == new_edges@[k].node,
        decreases n - j,
    {
        sub_blocks.push((&dag.directed_edges[j].node, &new_edges[j].node));
        j += 1;
    }
    let ghost gsubs = sub_blocks;
    let new_node = flat_flow_gen(&dag.node, sub_blocks);
    let result = Dag { node: new_node, directed_edges: new_edges };
    proof {
        assert(gsubs@.len() == dag.directed_edges@.len());
        assert(call_ensures(*flat_flow_gen, (&dag.node, gsubs), result.node));
        assert(generated(*flat_flow_gen, *dag, result));
    }
    result
}

/// Graphs of the same shape have the same node count; with the ensures of
/// [`hierarchical`], composition preserves the node count of the hierarchy.
pub proof fn lemma_same_shape_node_count<M, F>(a: Dag<M>, b: Dag<F>)
    requires
        same_shape(a, b),
    ensures
        node_count(a) == node_count(b),
    decreases a,
{
    lemma_same_shape_node_count_seq(a.directed_edges@, b.directed_edges@);
}

proof fn lemma_same_shape_node_count_seq<M, F>(sa: Seq<Dag<M>>, sb: Seq<Dag<F>>)
    requires
        sa.len() == sb.len(),
        forall|i: int| 0 <= i < sa.len() ==> same_shape(#[trigger] sa[i], sb[i]),
    ensures
        node_count_seq(sa) == node_count_seq(sb),
    decreases sa,
{
    if sa.len() > 0 {
        lemma_same_shape_node_count(sa[0], sb[0]);
        lemma_same_shape_node_count_seq(sa.drop_first(), sb.drop_first());
    }
}

/// Some node of the graph (the root included) carries the given name.
pub open spec fn contains_name<F: NamedNode>(d: Dag<F>, name: Seq<char>) -> bool
    decreases d,
{
    ||| d.node.spec_name() == name
    ||| exists|i: int|
        0 <= i < d.directed_edges@.len() && contains_name(#[trigger] d.directed_edges@[i], name)
}

/// `new_d` is `old_d` with the payload of the depth-first-first node named
/// `name` changed from `prev` to `x`; every other node is untouched.
pub open spec fn replaced_first<F: NamedNode>(
    old_d: Dag<F>,
    new_d: Dag<F>,
    name: Seq<char>,
    prev: F,
    x: F,
) -> bool
    decreases old_d,
{
    if old_d.node.spec_name() == name {
        &&& prev == old_d.node
        &&& new_d.node == x
        &&& new_d.directed_edges@ == old_d.directed_edges@
    } else {
        &&& new_d.node == old_d.node
        &&& new_d.directed_edges@.len() == old_d.directed_edges@.len()
        &&& exists|k: int|
            {
                &&& 0 <= k < old_d.directed_edges@.len()
                &&& contains_name(#[trigger] old_d.directed_edges@[k], name)
                &&& (forall|j: int|
                    0 <= j < k ==> !contains_name(#[trigger] old_d.directed_edges@[j], name))
                &&& replaced_first(old_d.directed_edges@[k], new_d.directed_edges@[k], name, prev, x)
                &&& (forall|j: int|
                    0 <= j < old_d.directed_edges@.len() && j != k
                        ==> new_d.directed_edges@[j] == #[trigger] old_d.directed_edges@[j])
            }
    }
}

impl<F: NamedNode> Dag<F> {
    /// Index of the first child whose subtree contains the name, if any.
    fn first_child_containing(&self, target: &String) -> (r: Option<usize>)
        ensures
            match r {
                Some(k) => {
                    &&& k < self.directed_edges@.len()
                    &&& contains_name(self.directed_edges@[k as int], target@)
                    &&& forall|j: int|
                        0 <= j < k ==> !contains_name(#[trigger] self.directed_edges@[j], target@)
                },
                None => forall|j: int|
                    0 <= j < self.directed_edges@.len() ==> !contains_name(
                        #[trigger] self.directed_edges@[j],
                        target@,
                    ),
            },
    {
        let n: usize = self.directed_edges.len();
        let mut k: usize = 0;
        while k < n
            invariant
                n == self.directed_edges@.len(),
                0 <= k <= n,
                forall|j: int| 0 <= j < k ==> !contains_name(#[trigger] self.directed_edges@[j], target@),
            decreases n - k,
        {
            if self.directed_edges[k].contains(target) {
                return Some(k);
            }
            k += 1;
        }
        None
    }

    /// Look up a node by name anywhere in the graph (depth-first, the root
    /// first) and hand back a mutable borrow of its payload, or `None` when
    /// no node carries the name.  Used to attach a hook or a starting
    /// checkpoint to one already-composed build node.
    pub fn get_mut(&mut self, target: &String) -> (r: Option<&mut F>)
        ensures
            r is Some <==> contains_name(*old(self), target@),
            r matches Some(p) ==> replaced_first(*old(self), *final(self), target@, *p, *final(p)),
            r is None ==> *final(self) == *old(self),
        decreases *old(self),
    {
        if self.node.name() == *target {
            return Some(&mut self.node);
        }
        match self.first_child_containing(target) {
            Some(k) => {
                let child = &mut self.directed_edges[k];
                child.get_mut(target)
            },
            None => None,
        }
    }

    /// Depth-first search: does any node of this graph carry the name?
    pub fn contains(&self, target: &String) -> (r: bool)
        ensures
            r == contains_name(*self, target@),
        decreases *self,
    {
        if self.node.name() == *target {
            return true;
        }
        let n: usize = self.directed_edges.len();
        let mut i: usize = 0;
        while i < n
            invariant
                n == self.directed_edges@.len(),
                0 <= i <= n,
                forall|j: int| 0 <= j < i ==> !contains_name(#[trigger] self.directed_edges@[j], target@),
                self.node.spec_name() != target@,
            decreases n - i,
        {
            if self.directed_edges[i].contains(target) {
                return true;
            }
            i += 1;
        }
        false
    }
}

} // verus!
