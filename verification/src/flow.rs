//! A named workflow: nodes carrying step sequences, depending on one another
//! by name, driven by a configuration that can pin a node, start it at a
//! named step, or stop it at one.
//!
//! `Flow::execute` resolves the names to graph identities, schedules the
//! target node's dependency closure, applies the configuration to each
//! scheduled node's steps, and returns the resulting tool invocations in
//! execution order.  The embedder hands each invocation to its node's tool
//! ([`Tool::invoke`]), stopping at the first failure.

use vstd::prelude::*;

use crate::error::FlowError;
use crate::sched::{
    execution_order, execution_order_spec, graph_of, graph_wf, StepGraph, StepId,
};

verus! {

/// One named step of a workflow node, with the checkpoint file its result is
/// persisted to, if any.
pub struct Step {
    pub name: String,
    pub command: String,
    pub checkpoint: Option<String>,
}

impl Clone for Step {
    fn clone(&self) -> (r: Self)
        ensures
            r == *self,
    {
        Step {
            name: self.name.clone(),
            command: self.command.clone(),
            checkpoint: match &self.checkpoint {
                Some(p) => Some(p.clone()),
                None => None,
            },
        }
    }
}

/// An external tool, implemented by the embedder: runs the given steps in
/// the given working directory, restoring the given checkpoint first when
/// one is set.
pub trait Tool {
    fn invoke(&self, work_dir: String, start_checkpoint: Option<String>, steps: Vec<Step>);
}

/// One node of a workflow: a name, a working directory, where its
/// checkpoints live, its steps, and the names of the nodes it depends on.
pub struct FlowNode {
    pub name: String,
    pub work_dir: String,
    pub checkpoint_dir: String,
    pub steps: Vec<Step>,
    pub deps: Vec<String>,
}

/// Where a node's run starts: at the named step, restoring the given
/// checkpoint first when one is set.
pub struct ToolStart {
    pub step: String,
    pub checkpoint: Option<String>,
}

/// Per-node configuration: start at a step, stop at a step, or pin the node
/// (treat it as already built and skip it).
pub struct ToolConfig {
    pub start: Option<ToolStart>,
    pub stop: Option<String>,
    pub pin: Option<bool>,
}

/// The whole run's configuration: one entry per configured node, keyed by
/// the node's name (names are unique; the first entry wins).
pub struct Config {
    pub tools: Vec<(String, ToolConfig)>,
}

/// The first configuration entry for the given node name.
pub open spec fn find_tool_config(tools: Seq<(String, ToolConfig)>, name: Seq<char>) -> Option<
    ToolConfig,
>
    decreases tools.len(),
{
    if tools.len() == 0 {
        None
    } else if tools[0].0@ == name {
        Some(tools[0].1)
    } else {
        find_tool_config(tools.drop_first(), name)
    }
}

impl Config {
    /// Look up the configuration of a node.
    pub fn get(&self, name: &String) -> (r: Option<&ToolConfig>)
        ensures
            match r {
                Some(c) => find_tool_config(self.tools@, name@) == Some(*c),
                None => find_tool_config(self.tools@, name@) is None,
            },
    {
        let n: usize = self.tools.len();
        proof {
            assert(self.tools@.skip(0) =~= self.tools@);
        }
        let mut i: usize = 0;
        while i < n
            invariant
                n == self.tools@.len(),
                0 <= i <= n,
                find_tool_config(self.tools@, name@) == find_tool_config(
                    self.tools@.skip(i as int),
                    name@,
                ),
        decreases n - i,
        {
            proof {
                let rest = self.tools@.skip(i as int);
                assert(rest[0] == self.tools@[i as int]);
                assert(rest.drop_first() =~= self.tools@.skip(i as int + 1));
            }
            if self.tools[i].0 == *name {
                return Some(&self.tools[i].1);
            }
            i += 1;
        }
        proof {
            assert(self.tools@.skip(n as int) =~= Seq::<(String, ToolConfig)>::empty());
        }
        None
    }
}

/// Index of the first step with the given name.
pub open spec fn find_flow_step(steps: Seq<Step>, name: Seq<char>) -> Option<int>
    decreases steps.len(),
{
    if steps.len() == 0 {
        None
    } else if steps[0].name@ == name {
        Some(0int)
    } else {
        match find_flow_step(steps.drop_first(), name) {
            Some(i) => Some(i + 1),
            None => None,
        }
    }
}

/// Find the first step with the given name.
pub fn flow_step_position(steps: &Vec<Step>, name: &String) -> (r: Option<usize>)
    ensures
        match r {
            Some(i) => i < steps@.len() && Some(i as int) == find_flow_step(steps@, name@),
            None => find_flow_step(steps@, name@) is None,
        },
{
    let n: usize = steps.len();
    proof {
        assert(steps@.skip(0) =~= steps@);
    }
    let mut i: usize = 0;
    while i < n
        invariant
            n == steps@.len(),
            0 <= i <= n,
            find_flow_step(steps@, name@) == match find_flow_step(steps@.skip(i as int), name@) {
                Some(k) => Some(k + i),
                None => None,
            },
        decreases n - i,
    {
        proof {
            let rest = steps@.skip(i as int);
            assert(rest[0] == steps@[i as int]);
            assert(rest.drop_first() =~= steps@.skip(i as int + 1));
        }
        if steps[i].name == *name {
            return Some(i);
        }
        i += 1;
    }
    proof {
        assert(steps@.skip(n as int) =~= Seq::<Step>::empty());
    }
    None
}

/// Where the configured run of a step sequence starts: at the step the
/// configuration names, or at the beginning when none is named or the named
/// one is absent.
pub open spec fn start_index(steps: Seq<Step>, tc: ToolConfig) -> int {
    match tc.start {
        Some(st) => match find_flow_step(steps, st.step@) {
            Some(i) => i,
            None => 0,
        },
        None => 0,
    }
}

/// Where it stops: just after the step the configuration names, or at the
/// end when none is named or the named one is absent.
pub open spec fn stop_index(steps: Seq<Step>, tc: ToolConfig) -> int {
    match tc.stop {
        Some(sn) => match find_flow_step(steps, sn@) {
            Some(i) => i + 1,
            None => steps.len() as int,
        },
        None => steps.len() as int,
    }
}

/// The steps a node actually runs under its configuration: all of them
/// without one, otherwise the slice from the configured start to the
/// configured stop — empty when they cross.
pub open spec fn steps_to_run(steps: Seq<Step>, tc: Option<ToolConfig>) -> Seq<Step> {
    match tc {
        None => steps,
        Some(c) => if start_index(steps, c) >= stop_index(steps, c) {
            Seq::<Step>::empty()
        } else {
            steps.subrange(start_index(steps, c), stop_index(steps, c))
        },
    }
}

/// Apply a node's configuration to its steps (see [`steps_to_run`]).
pub fn get_steps_for_tool(node: &FlowNode, config: Option<&ToolConfig>) -> (r: Vec<Step>)
    ensures
        config matches Some(c) ==> r@ == steps_to_run(node.steps@, Some(*c)),
        config is None ==> r@ == steps_to_run(node.steps@, None),
{
    let total: usize = node.steps.len();
    let (start, stop): (usize, usize) = match config {
        None => (0, total),
        Some(c) => {
            let start: usize = match &c.start {
                Some(st) => match flow_step_position(&node.steps, &st.step) {
                    Some(i) => i,
                    None => 0,
                },
                None => 0,
            };
            let stop: usize = match &c.stop {
                Some(sn) => match flow_step_position(&node.steps, sn) {
                    Some(i) => i + 1,
                    None => total,
                },
                None => total,
            };
            if start >= stop {
                return Vec::new();
            }
            (start, stop)
        },
    };
    let mut r: Vec<Step> = Vec::new();
    let mut k: usize = start;
    proof {
        assert(node.steps@.subrange(start as int, start as int) =~= Seq::<Step>::empty());
    }
    while k < stop
        invariant
            start <= k <= stop <= node.steps@.len(),
            r@ == node.steps@.subrange(start as int, k as int),
        decreases stop - k,
    {
        r.push(node.steps[k].clone());
        proof {
            assert(node.steps@.subrange(start as int, k as int + 1) =~= node.steps@.subrange(
                start as int,
                k as int,
            ).push(node.steps@[k as int]));
        }
        k += 1;
    }
    proof {
        assert(node.steps@.subrange(0, node.steps@.len() as int) =~= node.steps@);
    }
    r
}

/// Whether the configuration pins the node.
pub open spec fn node_pinned(tc: Option<ToolConfig>) -> bool {
    match tc {
        Some(c) => c.pin == Some(true),
        None => false,
    }
}

/// The checkpoint the configured start restores, if any.
pub open spec fn node_start_checkpoint(tc: Option<ToolConfig>) -> Option<String> {
    match tc {
        Some(c) => match c.start {
            Some(st) => st.checkpoint,
            None => None,
        },
        None => None,
    }
}

/// One tool invocation of a run, in execution order: which node, where, from
/// which checkpoint, and the steps to run.
pub struct Invocation {
    pub node: String,
    pub work_dir: String,
    pub start_checkpoint: Option<String>,
    pub steps: Vec<Step>,
}

/// Index of the first node with the given name.
pub open spec fn find_node(workflow: Seq<FlowNode>, name: Seq<char>) -> Option<int>
    decreases workflow.len(),
{
    if workflow.len() == 0 {
        None
    } else if workflow[0].name@ == name {
        Some(0int)
    } else {
        match find_node(workflow.drop_first(), name) {
            Some(i) => Some(i + 1),
            None => None,
        }
    }
}

/// Find the first node with the given name.
pub fn node_position(workflow: &Vec<FlowNode>, name: &String) -> (r: Option<usize>)
    ensures
        match r {
            Some(i) => i < workflow@.len() && Some(i as int) == find_node(workflow@, name@),
            None => find_node(workflow@, name@) is None,
        },
{
    let n: usize = workflow.len();
    proof {
        assert(workflow@.skip(0) =~= workflow@);
    }
    let mut i: usize = 0;
    while i < n
        invariant
            n == workflow@.len(),
            0 <= i <= n,
            find_node(workflow@, name@) == match find_node(workflow@.skip(i as int), name@) {
                Some(k) => Some(k + i),
                None => None,
            },
        decreases n - i,
    {
        proof {
            let rest = workflow@.skip(i as int);
            assert(rest[0] == workflow@[i as int]);
            assert(rest.drop_first() =~= workflow@.skip(i as int + 1));
        }
        if workflow[i].name == *name {
            return Some(i);
        }
        i += 1;
    }
    proof {
        assert(workflow@.skip(n as int) =~= Seq::<FlowNode>::empty());
    }
    None
}

/// What [`find_node`] finds is the first node with the name; `None` means
/// no node carries it.
pub proof fn lemma_find_node_first(workflow: Seq<FlowNode>, name: Seq<char>)
    ensures
        match find_node(workflow, name) {
            Some(i) => 0 <= i < workflow.len() && workflow[i].name@ == name && (forall|j: int|
                0 <= j < i ==> workflow[j].name@ != name),
            None => forall|j: int| 0 <= j < workflow.len() ==> workflow[j].name@ != name,
        },
    decreases workflow.len(),
{
    if workflow.len() == 0 {
    } else if workflow[0].name@ == name {
    } else {
        let rest = workflow.drop_first();
        lemma_find_node_first(rest, name);
        assert(forall|j: int| 0 <= j < rest.len() ==> rest[j] == #[trigger] workflow[j + 1]);
        match find_node(rest, name) {
            Some(i) => {
                assert(rest[i] == workflow[i + 1]);
                assert forall|j: int| 0 <= j < i + 1 implies workflow[j].name@ != name by {
                    if j > 0 {
                        assert(rest[j - 1].name@ != name);
                        assert(rest[j - 1] == workflow[j]);
                    }
                }
            },
            None => {
                assert forall|j: int| 0 <= j < workflow.len() implies workflow[j].name@ != name by {
                    if j > 0 {
                        assert(rest[j - 1].name@ != name);
                        assert(rest[j - 1] == workflow[j]);
                    }
                }
            },
        }
    }
}

/// Identity of the node a dependency name resolves to.
pub open spec fn dep_id(workflow: Seq<FlowNode>, i: int, k: int) -> Option<int> {
    find_node(workflow, workflow[i].deps@[k]@)
}

/// A well-formed workflow: every dependency name resolves, and only to a
/// node that stands earlier in the list — nodes are listed after the nodes
/// they depend on, which is what makes the dependency graph acyclic.
pub open spec fn flow_wf(workflow: Seq<FlowNode>) -> bool {
    forall|i: int, k: int|
        0 <= i < workflow.len() && 0 <= k < workflow[i].deps@.len() ==> {
            &&& #[trigger] dep_id(workflow, i, k) is Some
            &&& dep_id(workflow, i, k).unwrap() < i
        }
}

/// The dependency identities of node `i`.
pub open spec fn flow_dep_ids(workflow: Seq<FlowNode>, i: int) -> Seq<StepId> {
    Seq::new(workflow[i].deps@.len(), |k: int| dep_id(workflow, i, k).unwrap() as usize)
}

/// The abstract build graph of a workflow under a configuration: each node's
/// dependency identities and whether the configuration pins it.
pub open spec fn flow_graph(workflow: Seq<FlowNode>, cfg: Config) -> StepGraph {
    Seq::new(
        workflow.len(),
        |i: int|
            (
                flow_dep_ids(workflow, i),
                node_pinned(find_tool_config(cfg.tools@, workflow[i].name@)),
            ),
    )
}

/// Whether a node has any step to run under the configuration.
pub open spec fn has_work(workflow: Seq<FlowNode>, cfg: Config) -> spec_fn(StepId) -> bool {
    |id: StepId|
        steps_to_run(
            workflow[id as int].steps@,
            find_tool_config(cfg.tools@, workflow[id as int].name@),
        ).len() != 0
}

/// `inv` is the invocation of node `id` under the configuration.
pub open spec fn invocation_matches(
    workflow: Seq<FlowNode>,
    cfg: Config,
    inv: Invocation,
    id: StepId,
) -> bool {
    &&& inv.node@ == workflow[id as int].name@
    &&& inv.work_dir@ == workflow[id as int].work_dir@
    &&& inv.start_checkpoint == node_start_checkpoint(
        find_tool_config(cfg.tools@, workflow[id as int].name@),
    )
    &&& inv.steps@ == steps_to_run(
        workflow[id as int].steps@,
        find_tool_config(cfg.tools@, workflow[id as int].name@),
    )
}

/// `plan` holds one invocation for each scheduled node with work to do, in
/// execution order.
pub open spec fn plan_matches(
    workflow: Seq<FlowNode>,
    cfg: Config,
    target: StepId,
    plan: Seq<Invocation>,
) -> bool {
    let ord = execution_order_spec(flow_graph(workflow, cfg), target).filter(
        has_work(workflow, cfg),
    );
    &&& plan.len() == ord.len()
    &&& forall|k: int|
        0 <= k < plan.len() ==> invocation_matches(workflow, cfg, #[trigger] plan[k], ord[k])
}

/// The workflow: its nodes, each listed after the nodes it depends on.
pub struct Flow {
    pub workflow: Vec<FlowNode>,
}

impl Flow {
    /// A flow over the given nodes.
    pub fn new(workflow: Vec<FlowNode>) -> (r: Flow)
        ensures
            r.workflow == workflow,
    {
        Flow { workflow }
    }

    /// Execute the named node and everything it depends on: resolve the
    /// name, schedule its dependency closure — every reachable node once,
    /// dependencies first, pinned nodes skipped — apply the configuration to
    /// each scheduled node's steps, and return the tool invocations of the
    /// nodes with steps left to run, in execution order.  The only error is
    /// a name no node carries.
    pub fn execute(&self, node: &String, config: &Config) -> (r: Result<
        Vec<Invocation>,
        FlowError,
    >)
        requires
            flow_wf(self.workflow@),
        ensures
            r is Ok <==> find_node(self.workflow@, node@) is Some,
            r matches Err(e) ==> (e matches FlowError::NodeNotFound { name } && name@ == node@),
            r matches Ok(plan) ==> plan_matches(
                self.workflow@,
                *config,
                find_node(self.workflow@, node@).unwrap() as usize,
                plan@,
            ),
    {
        let target: usize = match node_position(&self.workflow, node) {
            Some(t) => t,
            None => {
                return Err(FlowError::NodeNotFound { name: node.clone() });
            },
        };
        let ghost w = self.workflow@;
        let ghost cfg = *config;
        let n: usize = self.workflow.len();

        // Resolve the dependency names of every node to identities.
        let mut adapters: Vec<FlowAdapter> = Vec::new();
        let mut i: usize = 0;
        while i < n
            invariant
                flow_wf(w),
                w == self.workflow@,
                cfg == *config,
                n == w.len(),
                0 <= i <= n,
                adapters@.len() == i,
                forall|m: int|
                    0 <= m < i ==> (#[trigger] adapters@[m]).deps@ == flow_dep_ids(w, m)
                        && adapters@[m].pinned == node_pinned(
                        find_tool_config(cfg.tools@, w[m].name@),
                    ),
            decreases n - i,
        {
            let node_ref = &self.workflow[i];
            let dn: usize = node_ref.deps.len();
            let mut ids: Vec<StepId> = Vec::new();
            let mut k: usize = 0;
            while k < dn
                invariant
                    flow_wf(w),
                    w == self.workflow@,
                    0 <= i < w.len(),
                    node_ref == w[i as int],
                    dn == node_ref.deps@.len(),
                    0 <= k <= dn,
                    ids@.len() == k,
                    forall|m: int| 0 <= m < k ==> ids@[m] == flow_dep_ids(w, i as int)[m],
                decreases dn - k,
            {
                let id: usize = match node_position(&self.workflow, &node_ref.deps[k]) {
                    Some(id) => id,
                    None => {
                        proof {
                            assert(dep_id(w, i as int, k as int) is Some);
                            assert(false);
                        }
                        0
                    },
                };
                ids.push(id);
                k += 1;
            }
            let pinned: bool = match config.get(&node_ref.name) {
                Some(c) => match &c.pin {
                    Some(p) => *p,
                    None => false,
                },
                None => false,
            };
            proof {
                assert(ids@ =~= flow_dep_ids(w, i as int));
            }
            adapters.push(FlowAdapter { deps: ids, pinned });
            i += 1;
        }
        proof {
            assert(graph_of(adapters@) =~~= flow_graph(w, cfg));
            assert forall|a: int, b: int|
                0 <= a < flow_graph(w, cfg).len() && 0 <= b < flow_graph(w, cfg)[a].0.len()
                implies #[trigger] flow_graph(w, cfg)[a].0[b] < a by {
                assert(dep_id(w, a, b) is Some && dep_id(w, a, b).unwrap() < a);
                lemma_find_node_first(w, w[a].deps@[b]@);
                assert(dep_id(w, a, b).unwrap() >= 0);
                assert(flow_graph(w, cfg)[a].0[b] == dep_id(w, a, b).unwrap() as usize);
            }
            assert(graph_wf(flow_graph(w, cfg)));
        }

        // Schedule and collect the invocations of the nodes with work to do.
        let order: Vec<StepId> = execution_order(&adapters, target);
        let ghost ord = execution_order_spec(flow_graph(w, cfg), target);
        proof {
            crate::sched::lemma_execution_order_bounded(flow_graph(w, cfg), target);
            assert(ord.subrange(0, 0).filter(has_work(w, cfg)) =~= Seq::<StepId>::empty());
        }
        let mut plan: Vec<Invocation> = Vec::new();
        let on: usize = order.len();
        let mut q: usize = 0;
        while q < on
            invariant
                flow_wf(w),
                w == self.workflow@,
                cfg == *config,
                on == order@.len(),
                order@ == ord,
                0 <= q <= on,
                forall|m: int| 0 <= m < ord.len() ==> #[trigger] ord[m] < w.len(),
                plan@.len() == ord.subrange(0, q as int).filter(has_work(w, cfg)).len(),
                forall|m: int|
                    0 <= m < plan@.len() ==> invocation_matches(
                        w,
                        cfg,
                        #[trigger] plan@[m],
                        ord.subrange(0, q as int).filter(has_work(w, cfg))[m],
                    ),
            decreases on - q,
        {
            let id: usize = order[q];
            let node_ref = &self.workflow[id];
            let tc = config.get(&node_ref.name);
            let steps_run = get_steps_for_tool(node_ref, tc);
            let ghost prefix = ord.subrange(0, q as int).filter(has_work(w, cfg));
            if steps_run.len() > 0 {
                let start_checkpoint: Option<String> = match tc {
                    Some(c) => match &c.start {
                        Some(st) => match &st.checkpoint {
                            Some(p) => Some(p.clone()),
                            None => None,
                        },
                        None => None,
                    },
                    None => None,
                };
                plan.push(
                    Invocation {
                        node: node_ref.name.clone(),
                        work_dir: node_ref.work_dir.clone(),
                        start_checkpoint,
                        steps: steps_run,
                    },
                );
            }
            proof {
                reveal(Seq::filter);
                assert(has_work(w, cfg)(id) == (steps_run@.len() != 0));
                let upto = ord.subrange(0, q as int + 1);
                assert(upto.drop_last() =~= ord.subrange(0, q as int));
                assert(upto.last() == ord[q as int]);
                assert(upto.filter(has_work(w, cfg)) == if has_work(w, cfg)(id) {
                    prefix.push(upto.last())
                } else {
                    prefix
                });
            }
            q += 1;
        }
        proof {
            assert(ord.subrange(0, on as int) =~= ord);
        }
        Ok(plan)
    }
}

/// A workflow node reduced to its graph shape: resolved dependency
/// identities and the configured pin flag.
struct FlowAdapter {
    deps: Vec<StepId>,
    pinned: bool,
}

impl crate::sched::Step for FlowAdapter {
    closed spec fn spec_deps(&self) -> Seq<StepId> {
        self.deps@
    }

    closed spec fn spec_pinned(&self) -> bool {
        self.pinned
    }

    fn deps(&self) -> (r: Vec<StepId>) {
        crate::sched::copy_ids(&self.deps)
    }

    fn pinned(&self) -> (r: bool) {
        self.pinned
    }
}

} // verus!
