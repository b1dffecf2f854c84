//! The scheduler: walks a build node's dependency graph depth first and
//! yields every reachable node exactly once, dependencies before dependents,
//! skipping pinned nodes.
//!
//! Build nodes are shared: one node may be a dependency of several parents.
//! Visits are memoized by node identity, not by value equality, so a shared
//! node runs at most once while two equal-looking nodes at different
//! positions each run.  Identity is the id a node was given when it was
//! added to its arena (its index), and a well-formed graph only ever points
//! at nodes that already existed when a node was added — which is also what
//! makes it acyclic.

use vstd::prelude::*;
use vstd::seq_lib::*;

verus! {

/// Identity of a build node: the index at which it stands in its arena.
pub type StepId = usize;

/// One executable unit of work.  A step exposes the identities of the steps
/// it depends on and whether it is pinned (already built: the scheduler
/// visits its dependencies but skips its own action).  The side-effecting
/// execute action itself is performed by the embedder, node kind by node
/// kind, in the order the scheduler yields.
pub trait Step {
    /// The dependency identities, in the order they are visited.
    spec fn spec_deps(&self) -> Seq<StepId>;

    /// Whether the step is pinned (treated as already built).
    spec fn spec_pinned(&self) -> bool;

    fn deps(&self) -> (r: Vec<StepId>)
        ensures
            r@ == self.spec_deps(),
    ;

    fn pinned(&self) -> (r: bool)
        ensures
            r == self.spec_pinned(),
    ;
}

/// The abstract shape of a build graph: for each node, in id order, its
/// dependency ids and whether it is pinned.
pub type StepGraph = Seq<(Seq<StepId>, bool)>;

/// The abstract graph of a node arena.
pub open spec fn graph_of<S: Step>(nodes: Seq<S>) -> StepGraph {
    Seq::new(nodes.len(), |i: int| (nodes[i].spec_deps(), nodes[i].spec_pinned()))
}

/// A well-formed graph: every dependency of a node has a strictly smaller
/// id.  Nodes are added to the arena after the nodes they depend on, so this
/// holds by construction, and it is what makes the graph acyclic.
pub open spec fn graph_wf(g: StepGraph) -> bool {
    forall|i: int, j: int|
        0 <= i < g.len() && 0 <= j < g[i].0.len() ==> #[trigger] g[i].0[j] < i
}

/// Completion order of the depth-first, identity-memoized walk from `t`:
/// `done` holds the identities already completed, in completion order, and
/// the result extends it with every node newly completed while visiting `t`
/// — dependencies first, `t` itself last.  Pinned nodes complete like any
/// other (their dependencies are still visited); pinning only suppresses the
/// node's own action, which is applied when the execution order is read off.
pub open spec fn visit(g: StepGraph, t: StepId, done: Seq<StepId>) -> Seq<StepId>
    decreases t, 1nat, 0nat,
        when graph_wf(g) && t < g.len()
{
    if done.contains(t) {
        done
    } else {
        visit_list(g, g[t as int].0, t, done).push(t)
    }
}

/// Visits each id of `ds` in order, threading the completion sequence.
/// `b` bounds the ids in `ds` (they are dependencies of node `b`).
pub open spec fn visit_list(g: StepGraph, ds: Seq<StepId>, b: StepId, done: Seq<StepId>) -> Seq<
    StepId,
>
    decreases b, 0nat, ds.len(),
        when graph_wf(g) && b <= g.len() && (forall|i: int| 0 <= i < ds.len() ==> ds[i] < b)
{
    if ds.len() == 0 {
        done
    } else {
        visit_list(g, ds.drop_first(), b, visit(g, ds[0], done))
    }
}

/// Nodes that are not pinned, i.e. whose own action runs.
pub open spec fn runs(g: StepGraph) -> spec_fn(StepId) -> bool {
    |i: StepId| !g[i as int].1
}

/// The completion order of a full walk from `target`.
pub open spec fn completion_order(g: StepGraph, target: StepId) -> Seq<StepId> {
    visit(g, target, Seq::empty())
}

/// The execution order: the completion order restricted to the nodes whose
/// action actually runs (the pinned ones are skipped).
pub open spec fn execution_order_spec(g: StepGraph, target: StepId) -> Seq<StepId> {
    completion_order(g, target).filter(runs(g))
}

/// The bookkeeping of the walk is consistent: `marked` flags exactly the ids
/// in `done`, and `done` only holds ids of the graph.
spec fn done_wf(done: Seq<StepId>, marked: Seq<bool>, n: nat) -> bool {
    &&& marked.len() == n
    &&& (forall|x: StepId| x < n ==> (#[trigger] marked[x as int] <==> done.contains(x)))
    &&& (forall|i: int| 0 <= i < done.len() ==> #[trigger] done[i] < n)
}

fn visit_exec<S: Step>(
    nodes: &Vec<S>,
    t: StepId,
    done: &mut Vec<StepId>,
    order: &mut Vec<StepId>,
    marked: &mut Vec<bool>,
)
    requires
        graph_wf(graph_of(nodes@)),
        t < nodes@.len(),
        done_wf(old(done)@, old(marked)@, nodes@.len() as nat),
        old(order)@ == old(done)@.filter(runs(graph_of(nodes@))),
    ensures
        final(done)@ == visit(graph_of(nodes@), t, old(done)@),
        done_wf(final(done)@, final(marked)@, nodes@.len() as nat),
        final(order)@ == final(done)@.filter(runs(graph_of(nodes@))),
    decreases t,
{
    if marked[t] {
        return ;
    }
    let ds: Vec<StepId> = nodes[t].deps();
    proof {
        assert(graph_of(nodes@)[t as int].0 == nodes@[t as int].spec_deps());
    }
    let ghost done0 = done@;
    let n: usize = ds.len();
    proof {
        assert(ds@.subrange(0, n as int) =~= ds@);
    }
    let mut i: usize = 0;
    while i < n
        invariant
            graph_wf(graph_of(nodes@)),
            t < nodes@.len(),
            n == ds@.len(),
            ds@ == graph_of(nodes@)[t as int].0,
            0 <= i <= n,
            done_wf(done@, marked@, nodes@.len() as nat),
            order@ == done@.filter(runs(graph_of(nodes@))),
            visit_list(graph_of(nodes@), ds@.subrange(i as int, n as int), t, done@) == visit_list(
                graph_of(nodes@),
                ds@,
                t,
                done0,
            ),
        decreases n - i,
    {
        proof {
            assert(ds@[i as int] < t);
        }
        visit_exec(nodes, ds[i], done, order, marked);
        proof {
            let rest = ds@.subrange(i as int, n as int);
            assert(rest[0] == ds@[i as int]);
            assert(rest.drop_first() =~= ds@.subrange(i as int + 1, n as int));
        }
        i += 1;
    }
    proof {
        assert(ds@.subrange(n as int, n as int) =~= Seq::<StepId>::empty());
        assert(done@ == visit_list(graph_of(nodes@), ds@, t, done0));
    }
    let ghost done1 = done@;
    done.push(t);
    marked.set(t, true);
    proof {
        assert(graph_of(nodes@)[t as int].1 == nodes@[t as int].spec_pinned());
    }
    if !nodes[t].pinned() {
        order.push(t);
    }
    proof {
        assert(!done0.contains(t));
        assert(visit(graph_of(nodes@), t, done0) == done1.push(t));
        assert(done@.drop_last() == done1);
        assert(done@.last() == t);
        reveal(Seq::filter);
        assert(done@.filter(runs(graph_of(nodes@))) == if runs(graph_of(nodes@))(t) {
            done1.filter(runs(graph_of(nodes@))).push(t)
        } else {
            done1.filter(runs(graph_of(nodes@)))
        });
        assert forall|x: StepId| x < nodes@.len() implies (marked@[x as int] <==> done@.contains(
            x,
        )) by {
            if x == t {
                assert(done@[done@.len() - 1] == t);
                assert(done@.contains(t));
            } else {
                if done@.contains(x) {
                    let idx = choose|idx: int| 0 <= idx < done@.len() && done@[idx] == x;
                    assert(idx < done@.len() - 1);
                    assert(done1[idx] == x);
                    assert(done1.contains(x));
                }
                if done1.contains(x) {
                    let idx = choose|idx: int| 0 <= idx < done1.len() && done1[idx] == x;
                    assert(done@[idx] == x);
                    assert(done@.contains(x));
                }
            }
        }
        assert forall|i2: int| 0 <= i2 < done@.len() implies done@[i2] < nodes@.len() by {
            if i2 < done@.len() - 1 {
                assert(done1[i2] < nodes@.len());
            } else {
                assert(done@[i2] == t);
            }
        }
    }
}

/// `x` stands at some position of `s` before position `i`.
pub open spec fn appears_before<A>(s: Seq<A>, x: A, i: int) -> bool {
    exists|k: int| 0 <= k < i && s[k] == x
}

/// Every node of `s` completes only after all of its dependencies: each
/// dependency of `s[i]` stands at some position before `i`.
pub open spec fn deps_ordered(g: StepGraph, s: Seq<StepId>) -> bool {
    forall|i: int, j: int|
        0 <= i < s.len() && 0 <= j < g[s[i] as int].0.len() ==> appears_before(
            s,
            #[trigger] g[s[i] as int].0[j],
            i,
        )
}

/// `x` is reachable from `a` along dependency edges (`a` itself included).
pub open spec fn reaches(g: StepGraph, a: StepId, x: StepId) -> bool
    decreases a,
        when graph_wf(g) && a < g.len()
{
    ||| a == x
    ||| exists|j: int| 0 <= j < g[a as int].0.len() && reaches(g, #[trigger] g[a as int].0[j], x)
}

/// `s` is closed under reachability: everything reachable from a member of
/// `s` is itself a member.
pub open spec fn reach_closed(g: StepGraph, s: Seq<StepId>) -> bool {
    forall|i: int, x: StepId| 0 <= i < s.len() && #[trigger] reaches(g, s[i], x) ==> s.contains(x)
}

proof fn lemma_visit_props(g: StepGraph, t: StepId, done: Seq<StepId>)
    requires
        graph_wf(g),
        t < g.len(),
    ensures
        visit(g, t, done).len() >= done.len(),
        forall|i: int| 0 <= i < done.len() ==> visit(g, t, done)[i] == done[i],
        forall|i: int|
            done.len() <= i < visit(g, t, done).len() ==> !done.contains(
                #[trigger] visit(g, t, done)[i],
            ) && visit(g, t, done)[i] <= t,
        visit(g, t, done).contains(t),
        done.no_duplicates() ==> visit(g, t, done).no_duplicates(),
    decreases t, 1nat, 0nat,
{
    let res = visit(g, t, done);
    if done.contains(t) {
        let i = choose|i: int| 0 <= i < done.len() && done[i] == t;
        assert(res[i] == t);
        assert(res.contains(t));
    } else {
        let ds = g[t as int].0;
        lemma_visit_list_props(g, ds, t, done);
        let vl = visit_list(g, ds, t, done);
        assert(res[res.len() - 1] == t);
        assert(res.contains(t));
        assert forall|i: int|
            done.len() <= i < res.len() implies !done.contains(#[trigger] res[i]) && res[i]
            <= t by {
            if i < res.len() - 1 {
                assert(res[i] == vl[i]);
            }
        }
        if done.no_duplicates() {
            assert forall|i: int, j: int|
                0 <= i < res.len() && 0 <= j < res.len() && i != j implies res[i] != res[j] by {
                if i < res.len() - 1 && j < res.len() - 1 {
                    assert(res[i] == vl[i] && res[j] == vl[j]);
                } else {
                    let k = if i < j {
                        i
                    } else {
                        j
                    };
                    assert(res[res.len() - 1] == t);
                    if k < done.len() {
                        assert(vl[k] == done[k]);
                        assert(done.contains(done[k]));
                    } else {
                        assert(res[k] == vl[k]);
                        assert(vl[k] < t);
                    }
                }
            }
        }
    }
}

proof fn lemma_visit_list_props(g: StepGraph, ds: Seq<StepId>, b: StepId, done: Seq<StepId>)
    requires
        graph_wf(g),
        b <= g.len(),
        forall|i: int| 0 <= i < ds.len() ==> ds[i] < b,
    ensures
        visit_list(g, ds, b, done).len() >= done.len(),
        forall|i: int| 0 <= i < done.len() ==> visit_list(g, ds, b, done)[i] == done[i],
        forall|i: int|
            done.len() <= i < visit_list(g, ds, b, done).len() ==> !done.contains(
                #[trigger] visit_list(g, ds, b, done)[i],
            ) && visit_list(g, ds, b, done)[i] < b,
        forall|j: int| 0 <= j < ds.len() ==> visit_list(g, ds, b, done).contains(#[trigger] ds[j]),
        done.no_duplicates() ==> visit_list(g, ds, b, done).no_duplicates(),
    decreases b, 0nat, ds.len(),
{
    let res = visit_list(g, ds, b, done);
    if ds.len() == 0 {
    } else {
        let d0 = ds[0];
        let mid = visit(g, d0, done);
        lemma_visit_props(g, d0, done);
        lemma_visit_list_props(g, ds.drop_first(), b, mid);
        assert forall|i: int|
            done.len() <= i < res.len() implies !done.contains(#[trigger] res[i]) && res[i]
            < b by {
            if i < mid.len() {
                assert(res[i] == mid[i]);
            } else {
                if done.contains(res[i]) {
                    let k = choose|k: int| 0 <= k < done.len() && done[k] == res[i];
                    assert(mid[k] == done[k]);
                    assert(mid.contains(res[i]));
                }
            }
        }
        assert forall|j: int| 0 <= j < ds.len() implies res.contains(#[trigger] ds[j]) by {
            if j == 0 {
                let k = choose|k: int| 0 <= k < mid.len() && mid[k] == d0;
                assert(res[k] == mid[k]);
                assert(res.contains(d0));
            } else {
                assert(ds.drop_first()[j - 1] == ds[j]);
            }
        }
    }
}

proof fn lemma_visit_ordered(g: StepGraph, t: StepId, done: Seq<StepId>)
    requires
        graph_wf(g),
        t < g.len(),
        deps_ordered(g, done),
    ensures
        deps_ordered(g, visit(g, t, done)),
    decreases t, 1nat, 0nat,
{
    let res = visit(g, t, done);
    if done.contains(t) {
    } else {
        let ds = g[t as int].0;
        let vl = visit_list(g, ds, t, done);
        lemma_visit_list_ordered(g, ds, t, done);
        lemma_visit_list_props(g, ds, t, done);
        assert(deps_ordered(g, vl));
        assert forall|i: int, j: int|
            0 <= i < res.len() && 0 <= j < g[res[i] as int].0.len() implies
            appears_before(res, #[trigger] g[res[i] as int].0[j], i) by {
            if i < res.len() - 1 {
                assert(res[i] == vl[i]);
                assert(appears_before(vl, g[vl[i] as int].0[j], i));
                let k = choose|k: int|
                    0 <= k < i && vl[k] == g[vl[i] as int].0[j];
                assert(res[k] == vl[k]);
                assert(0 <= k < i && res[k] == g[res[i] as int].0[j]);
            } else {
                assert(res[i] == t);
                let d = g[t as int].0[j];
                assert(vl.contains(d));
                let k = choose|k: int| 0 <= k < vl.len() && vl[k] == d;
                assert(res[k] == vl[k]);
                assert(0 <= k < i && res[k] == g[res[i] as int].0[j]);
            }
        }
    }
}

proof fn lemma_visit_list_ordered(g: StepGraph, ds: Seq<StepId>, b: StepId, done: Seq<StepId>)
    requires
        graph_wf(g),
        b <= g.len(),
        forall|i: int| 0 <= i < ds.len() ==> ds[i] < b,
        deps_ordered(g, done),
    ensures
        deps_ordered(g, visit_list(g, ds, b, done)),
    decreases b, 0nat, ds.len(),
{
    if ds.len() == 0 {
    } else {
        lemma_visit_ordered(g, ds[0], done);
        lemma_visit_list_ordered(g, ds.drop_first(), b, visit(g, ds[0], done));
    }
}

/// `x` is reachable from some id of `ds`.
pub open spec fn reaches_any(g: StepGraph, ds: Seq<StepId>, x: StepId) -> bool {
    exists|j: int| 0 <= j < ds.len() && reaches(g, #[trigger] ds[j], x)
}

proof fn lemma_visit_complete(g: StepGraph, t: StepId, done: Seq<StepId>)
    requires
        graph_wf(g),
        t < g.len(),
        reach_closed(g, done),
    ensures
        reach_closed(g, visit(g, t, done)),
        forall|x: StepId| reaches(g, t, x) ==> visit(g, t, done).contains(x),
        forall|i: int|
            0 <= i < visit(g, t, done).len() ==> done.contains(
                #[trigger] visit(g, t, done)[i],
            ) || reaches(g, t, visit(g, t, done)[i]),
    decreases t, 1nat, 0nat,
{
    let res = visit(g, t, done);
    if done.contains(t) {
        let i = choose|i: int| 0 <= i < done.len() && done[i] == t;
        assert forall|x: StepId| reaches(g, t, x) implies res.contains(x) by {
            assert(reaches(g, done[i], x));
        }
        assert forall|i2: int| 0 <= i2 < res.len() implies done.contains(#[trigger] res[i2])
            || reaches(g, t, res[i2]) by {
            assert(done.contains(done[i2]));
        }
    } else {
        let ds = g[t as int].0;
        let vl = visit_list(g, ds, t, done);
        lemma_visit_list_complete(g, ds, t, done);
        lemma_visit_list_props(g, ds, t, done);
        assert forall|x: StepId| reaches(g, t, x) implies res.contains(x) by {
            if x == t {
                assert(res[res.len() - 1] == t);
            } else {
                let j = choose|j: int|
                    0 <= j < ds.len() && reaches(g, #[trigger] ds[j], x);
                assert(vl.contains(x));
                let k = choose|k: int| 0 <= k < vl.len() && vl[k] == x;
                assert(res[k] == x);
            }
        }
        assert forall|i: int, x: StepId|
            0 <= i < res.len() && #[trigger] reaches(g, res[i], x) implies res.contains(x) by {
            if i < res.len() - 1 {
                assert(res[i] == vl[i]);
                assert(vl.contains(x));
                let k = choose|k: int| 0 <= k < vl.len() && vl[k] == x;
                assert(res[k] == x);
            } else {
                assert(res[i] == t);
            }
        }
        assert forall|i: int| 0 <= i < res.len() implies done.contains(#[trigger] res[i])
            || reaches(g, t, res[i]) by {
            if i < res.len() - 1 {
                assert(res[i] == vl[i]);
                if !done.contains(vl[i]) {
                    assert(reaches_any(g, ds, vl[i]));
                    let j = choose|j: int|
                        0 <= j < ds.len() && #[trigger] reaches(g, ds[j], vl[i]);
                    assert(reaches(g, t, vl[i]));
                }
            } else {
                assert(res[i] == t);
                assert(reaches(g, t, t));
            }
        }
    }
}

proof fn lemma_visit_list_complete(g: StepGraph, ds: Seq<StepId>, b: StepId, done: Seq<StepId>)
    requires
        graph_wf(g),
        b <= g.len(),
        forall|i: int| 0 <= i < ds.len() ==> ds[i] < b,
        reach_closed(g, done),
    ensures
        reach_closed(g, visit_list(g, ds, b, done)),
        forall|j: int, x: StepId|
            0 <= j < ds.len() && #[trigger] reaches(g, ds[j], x) ==> visit_list(
                g,
                ds,
                b,
                done,
            ).contains(x),
        forall|i: int|
            0 <= i < visit_list(g, ds, b, done).len() ==> done.contains(
                #[trigger] visit_list(g, ds, b, done)[i],
            ) || reaches_any(g, ds, visit_list(g, ds, b, done)[i]),
    decreases b, 0nat, ds.len(),
{
    let res = visit_list(g, ds, b, done);
    if ds.len() == 0 {
    } else {
        let d0 = ds[0];
        let mid = visit(g, d0, done);
        lemma_visit_complete(g, d0, done);
        lemma_visit_list_complete(g, ds.drop_first(), b, mid);
        lemma_visit_props(g, d0, done);
        lemma_visit_list_props(g, ds.drop_first(), b, mid);
        assert forall|j: int, x: StepId|
            0 <= j < ds.len() && #[trigger] reaches(g, ds[j], x) implies res.contains(x) by {
            if j == 0 {
                assert(mid.contains(x));
                let k = choose|k: int| 0 <= k < mid.len() && mid[k] == x;
                assert(res[k] == mid[k]);
            } else {
                assert(ds.drop_first()[j - 1] == ds[j]);
            }
        }
        assert forall|i: int| 0 <= i < res.len() implies done.contains(#[trigger] res[i])
            || reaches_any(g, ds, res[i]) by {
            let x = res[i];
            if !done.contains(x) {
                if mid.contains(x) {
                    let k = choose|k: int| 0 <= k < mid.len() && mid[k] == x;
                    if reaches(g, d0, x) {
                        assert(0 <= 0 < ds.len() && reaches(g, ds[0], x));
                        assert(reaches_any(g, ds, x));
                    } else {
                        assert(done.contains(mid[k]));
                    }
                } else {
                    assert(reaches_any(g, ds.drop_first(), x));
                    let j = choose|j: int|
                        0 <= j < ds.drop_first().len() && #[trigger] reaches(
                            g,
                            ds.drop_first()[j],
                            x,
                        );
                    assert(ds.drop_first()[j] == ds[j + 1]);
                    assert(reaches(g, ds[j + 1], x));
                    assert(reaches_any(g, ds, x));
                }
            }
        }
    }
}

proof fn lemma_filter_subset<A>(s: Seq<A>, p: spec_fn(A) -> bool)
    ensures
        forall|i: int| 0 <= i < s.filter(p).len() ==> s.contains(#[trigger] s.filter(p)[i]),
    decreases s.len(),
{
    reveal(Seq::filter);
    if s.len() > 0 {
        lemma_filter_subset(s.drop_last(), p);
        let f = s.filter(p);
        let fsub = s.drop_last().filter(p);
        assert forall|i: int| 0 <= i < f.len() implies s.contains(#[trigger] f[i]) by {
            if i < fsub.len() {
                assert(fsub[i] == f[i]);
                assert(s.drop_last().contains(fsub[i]));
                let k = choose|k: int| 0 <= k < s.drop_last().len() && s.drop_last()[k] == fsub[i];
                assert(s[k] == fsub[i]);
            } else {
                assert(f[i] == s.last());
                assert(s[s.len() - 1] == s.last());
            }
        }
    }
}

proof fn lemma_filter_no_dup<A>(s: Seq<A>, p: spec_fn(A) -> bool)
    requires
        s.no_duplicates(),
    ensures
        s.filter(p).no_duplicates(),
    decreases s.len(),
{
    reveal(Seq::filter);
    if s.len() > 0 {
        lemma_filter_no_dup(s.drop_last(), p);
        lemma_filter_subset(s.drop_last(), p);
        let f = s.filter(p);
        let fsub = s.drop_last().filter(p);
        if p(s.last()) {
            assert forall|i: int, j: int|
                0 <= i < f.len() && 0 <= j < f.len() && i != j implies f[i] != f[j] by {
                if i < fsub.len() && j < fsub.len() {
                    assert(f[i] == fsub[i] && f[j] == fsub[j]);
                } else {
                    let k = if i < j {
                        i
                    } else {
                        j
                    };
                    assert(f[f.len() - 1] == s.last());
                    assert(f[k] == fsub[k]);
                    assert(s.drop_last().contains(fsub[k]));
                    let m = choose|m: int|
                        0 <= m < s.drop_last().len() && s.drop_last()[m] == fsub[k];
                    assert(s[m] == fsub[k]);
                    assert(s[m] != s[s.len() - 1]);
                }
            }
        }
    }
}

proof fn lemma_filter_position<A>(s: Seq<A>, p: spec_fn(A) -> bool, i: int)
    requires
        0 <= i < s.len(),
        p(s[i]),
    ensures
        s.take(i).filter(p).len() < s.filter(p).len(),
        s.filter(p)[s.take(i).filter(p).len() as int] == s[i],
        forall|k: int|
            0 <= k < i && p(#[trigger] s[k]) ==> appears_before(
                s.filter(p),
                s[k],
                s.take(i).filter(p).len() as int,
            ),
    decreases s.len() - i,
{
    reveal(Seq::filter);
    broadcast use Seq::filter_distributes_over_add;

    let f = s.filter(p);
    let pre = s.take(i);
    let single = seq![s[i]];
    let post = s.skip(i + 1);
    assert(single.drop_last() =~= Seq::<A>::empty());
    assert(Seq::<A>::empty().filter(p) =~= Seq::<A>::empty());
    assert(single.filter(p) =~= seq![s[i]]);
    assert(s =~= pre + single + post);
    assert(f == pre.filter(p) + single.filter(p) + post.filter(p));
    let n0 = pre.filter(p).len() as int;
    assert(f[n0] == s[i]);
    assert forall|k: int|
        0 <= k < i && p(#[trigger] s[k]) implies appears_before(f, s[k], n0) by {
        pre.filter_lemma(p);
        assert(pre[k] == s[k]);
        assert(pre.filter(p).contains(s[k]));
        let k1 = choose|k1: int| 0 <= k1 < pre.filter(p).len() && pre.filter(p)[k1] == s[k];
        assert(f[k1] == s[k]);
    }
}

/// The execution order runs each step at most once, however many parents
/// share it: a shared node reached along two dependency paths appears a
/// single time.
pub proof fn lemma_execution_order_exactly_once(g: StepGraph, target: StepId)
    requires
        graph_wf(g),
        target < g.len(),
    ensures
        execution_order_spec(g, target).no_duplicates(),
{
    lemma_visit_props(g, target, Seq::empty());
    lemma_filter_no_dup(completion_order(g, target), runs(g));
}

/// The execution order holds exactly the g reachable from the target
/// whose action runs: no pinned node appears, and every unpinned node
/// reachable along dependency edges — also through pinned g, whose
/// subtrees are still visited — appears.
pub proof fn lemma_execution_order_covers(g: StepGraph, target: StepId)
    requires
        graph_wf(g),
        target < g.len(),
    ensures
        forall|i: int|
            0 <= i < execution_order_spec(g, target).len() ==> reaches(
                g,
                target,
                #[trigger] execution_order_spec(g, target)[i],
            ) && !g[execution_order_spec(g, target)[i] as int].1,
        forall|x: StepId|
            #[trigger] reaches(g, target, x) && !g[x as int].1
                ==> execution_order_spec(g, target).contains(x),
{
    let c = completion_order(g, target);
    let f = execution_order_spec(g, target);
    lemma_visit_complete(g, target, Seq::empty());
    c.filter_lemma(runs(g));
    lemma_filter_subset(c, runs(g));
    assert forall|i: int|
        0 <= i < f.len() implies reaches(g, target, #[trigger] f[i]) && !g[f[i] as int].1 by {
        assert(c.contains(f[i]));
        let k = choose|k: int| 0 <= k < c.len() && c[k] == f[i];
        assert(!Seq::<StepId>::empty().contains(c[k]));
        assert(runs(g)(f[i]));
    }
    assert forall|x: StepId|
        #[trigger] reaches(g, target, x) && !g[x as int].1 implies f.contains(
            x,
        ) by {
        assert(c.contains(x));
        let k = choose|k: int| 0 <= k < c.len() && c[k] == x;
        assert(runs(g)(c[k]));
        assert(f.contains(c[k]));
    }
}

/// Dependency-ordered execution: every unpinned dependency of an executed
/// step stands earlier in the execution order, so a node's dependencies
/// always complete (or are pinned and skipped) before the node itself runs.
pub proof fn lemma_execution_order_deps_first(g: StepGraph, target: StepId)
    requires
        graph_wf(g),
        target < g.len(),
    ensures
        forall|i1: int, j: int|
            0 <= i1 < execution_order_spec(g, target).len() && 0 <= j < g[
                execution_order_spec(g, target)[i1] as int
            ].0.len() && !g[
                g[execution_order_spec(g, target)[i1] as int].0[j] as int
            ].1 ==> appears_before(
                execution_order_spec(g, target),
                #[trigger] g[execution_order_spec(g, target)[i1] as int].0[j],
                i1,
            ),
{
    let c = completion_order(g, target);
    let r = execution_order_spec(g, target);
    lemma_visit_props(g, target, Seq::empty());
    lemma_visit_ordered(g, target, Seq::empty());
    lemma_filter_no_dup(c, runs(g));
    lemma_filter_subset(c, runs(g));
    c.filter_lemma(runs(g));
    assert forall|i1: int, j: int|
        0 <= i1 < r.len() && 0 <= j < g[r[i1] as int].0.len() && !g[g[r[i1]
            as int].0[j] as int].1 implies appears_before(
        r,
        #[trigger] g[r[i1] as int].0[j],
        i1,
    ) by {
        let x = r[i1];
        let d = g[x as int].0[j];
        assert(c.contains(x));
        let i = choose|i: int| 0 <= i < c.len() && c[i] == x;
        assert(runs(g)(c[i]));
        lemma_filter_position(c, runs(g), i);
        let i1b = c.take(i).filter(runs(g)).len() as int;
        assert(r[i1b] == x);
        assert(i1b == i1);
        assert(appears_before(c, d, i));
        let k = choose|k: int| 0 <= k < i && c[k] == d;
        assert(runs(g)(c[k]));
        assert(appears_before(r, c[k], i1b));
    }
}

/// Every scheduled id is an id of the graph (no larger than the target's).
pub proof fn lemma_execution_order_bounded(g: StepGraph, target: StepId)
    requires
        graph_wf(g),
        target < g.len(),
    ensures
        forall|i: int|
            0 <= i < execution_order_spec(g, target).len() ==> #[trigger] execution_order_spec(
                g,
                target,
            )[i] <= target,
{
    let c = completion_order(g, target);
    let f = execution_order_spec(g, target);
    lemma_visit_props(g, target, Seq::empty());
    lemma_filter_subset(c, runs(g));
    assert forall|i: int| 0 <= i < f.len() implies #[trigger] f[i] <= target by {
        assert(c.contains(f[i]));
        let k = choose|k: int| 0 <= k < c.len() && c[k] == f[i];
        assert(!Seq::<StepId>::empty().contains(c[k]));
    }
}

/// When the target itself is not pinned, it runs, and it runs last.
pub proof fn lemma_execution_order_target_last(g: StepGraph, target: StepId)
    requires
        graph_wf(g),
        target < g.len(),
        !g[target as int].1,
    ensures
        execution_order_spec(g, target).len() > 0,
        execution_order_spec(g, target).last() == target,
{
    reveal(Seq::filter);
    let c = completion_order(g, target);
    let vl = visit_list(g, g[target as int].0, target, Seq::empty());
    assert(c == vl.push(target));
    assert(c.drop_last() == vl);
    assert(c.last() == target);
    assert(runs(g)(target));
}

/// Walks the dependency graph of `target` depth first and returns the ids of
/// the steps to execute, in order: every node reachable from `target` (along
/// dependency edges, through pinned nodes too) appears in the completion
/// order exactly once, dependencies before dependents, and the pinned nodes
/// are then left out.
pub fn execution_order<S: Step>(nodes: &Vec<S>, target: StepId) -> (r: Vec<StepId>)
    requires
        graph_wf(graph_of(nodes@)),
        target < nodes@.len(),
    ensures
        r@ == execution_order_spec(graph_of(nodes@), target),
{
    let mut done: Vec<StepId> = Vec::new();
    let mut order: Vec<StepId> = Vec::new();
    let mut marked: Vec<bool> = Vec::new();
    let mut i: usize = 0;
    let n: usize = nodes.len();
    while i < n
        invariant
            0 <= i <= n,
            n == nodes@.len(),
            marked@.len() == i,
            forall|x: int| 0 <= x < i ==> !marked@[x],
        decreases n - i,
    {
        marked.push(false);
        i += 1;
    }
    proof {
        assert(done_wf(done@, marked@, nodes@.len() as nat));
        assert(done@.filter(runs(graph_of(nodes@))) =~= Seq::<StepId>::empty());
    }
    visit_exec(nodes, target, &mut done, &mut order, &mut marked);
    order
}

/// Copy a dependency list, as handing it out requires.
pub fn copy_ids(v: &Vec<StepId>) -> (r: Vec<StepId>)
    ensures
        r@ == v@,
{
    let n: usize = v.len();
    let mut r: Vec<StepId> = Vec::new();
    let mut i: usize = 0;
    while i < n
        invariant
            n == v@.len(),
            0 <= i <= n,
            r@ == v@.take(i as int),
        decreases n - i,
    {
        r.push(v[i]);
        proof {
            assert(v@.take(i as int + 1) =~= v@.take(i as int).push(v@[i as int]));
        }
        i += 1;
    }
    proof {
        assert(v@.take(n as int) =~= v@);
    }
    r
}

/// One run of a build graph: drives the execution order past the embedder.
/// The embedder repeatedly asks which step to execute (`current`), performs
/// that step's action, and reports the outcome (`report`).  A failure aborts
/// the entire run immediately: no sibling or ancestor step is ever yielded
/// afterwards, and there is no rollback.
pub struct Run {
    order: Vec<StepId>,
    pos: usize,
    aborted: bool,
}

impl Run {
    /// The full execution order this run walks through.
    pub closed spec fn spec_order(&self) -> Seq<StepId> {
        self.order@
    }

    /// How many steps have completed successfully.
    pub closed spec fn spec_pos(&self) -> int {
        self.pos as int
    }

    /// Whether a failure has aborted the run.
    pub closed spec fn spec_aborted(&self) -> bool {
        self.aborted
    }

    /// The steps whose actions have run to completion, in order.
    pub open spec fn executed(&self) -> Seq<StepId> {
        self.spec_order().take(self.spec_pos())
    }

    pub open spec fn wf(&self) -> bool {
        0 <= self.spec_pos() <= self.spec_order().len()
    }

    /// Start a run of `target`: nothing has executed yet.
    pub fn new<S: Step>(nodes: &Vec<S>, target: StepId) -> (r: Run)
        requires
            graph_wf(graph_of(nodes@)),
            target < nodes@.len(),
        ensures
            r.wf(),
            r.spec_order() == execution_order_spec(graph_of(nodes@), target),
            r.spec_pos() == 0,
            !r.spec_aborted(),
    {
        Run { order: execution_order(nodes, target), pos: 0, aborted: false }
    }

    /// The step whose action should run now: `None` once every step has
    /// completed — or as soon as one has failed, whatever steps remain.
    pub fn current(&self) -> (r: Option<StepId>)
        requires
            self.wf(),
        ensures
            self.spec_aborted() || self.spec_pos() == self.spec_order().len() ==> r is None,
            !self.spec_aborted() && self.spec_pos() < self.spec_order().len() ==> r == Some(
                self.spec_order()[self.spec_pos()],
            ),
    {
        if self.aborted || self.pos == self.order.len() {
            None
        } else {
            Some(self.order[self.pos])
        }
    }

    /// Report the outcome of the current step's action.  Success advances
    /// the run by exactly that step; failure aborts it on the spot, with the
    /// set of executed steps frozen as it stands.
    pub fn report(&mut self, ok: bool)
        requires
            old(self).wf(),
            !old(self).spec_aborted(),
            old(self).spec_pos() < old(self).spec_order().len(),
        ensures
            final(self).wf(),
            final(self).spec_order() == old(self).spec_order(),
            ok ==> final(self).spec_pos() == old(self).spec_pos() + 1
                && !final(self).spec_aborted()
                && final(self).executed() == old(self).executed().push(
                old(self).spec_order()[old(self).spec_pos()],
            ),
            !ok ==> final(self).spec_aborted() && final(self).spec_pos() == old(self).spec_pos()
                && final(self).executed() == old(self).executed(),
    {
        if ok {
            proof {
                assert(self.order.len() <= usize::MAX);
            }
            self.pos = self.pos + 1;
            proof {
                assert(self.order@.take(self.pos as int) =~= self.order@.take(
                    self.pos as int - 1,
                ).push(self.order@[self.pos as int - 1]));
            }
        } else {
            self.aborted = true;
        }
    }
}

} // verus!
