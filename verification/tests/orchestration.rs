use std::cell::RefCell;

use rivet::bash::BashStep;
use rivet::dag::Dag;
use rivet::flows::{FlatPinInfo, ModuleInfo, Sky130FlatFlow};
use rivet::genus::GenusStep;
use rivet::innovus::InnovusStep;
use rivet::node::BuildStep;
use rivet::sched::{execution_order, Run, Step};

fn module(name: &str) -> ModuleInfo {
    ModuleInfo {
        module_name: name.to_string(),
        pin_info: FlatPinInfo::NoPin,
        verilog_path: format!("src/{}.v", name),
    }
}

/// top -> mid -> leaf, three levels.
fn three_level_dag() -> Dag<ModuleInfo> {
    Dag {
        node: module("top"),
        directed_edges: vec![Dag {
            node: module("mid"),
            directed_edges: vec![Dag { node: module("leaf"), directed_edges: vec![] }],
        }],
    }
}

fn count<F>(d: &Dag<F>) -> usize {
    1 + d.directed_edges.iter().map(count).sum::<usize>()
}

#[test]
fn hierarchical_preserves_shape_and_count() {
    let dag = three_level_dag();
    let out: Dag<String> = rivet::dag::hierarchical(&dag, &|m: &ModuleInfo,
     subs: Vec<(&ModuleInfo, &String)>|
     -> String {
        let mut plan = format!("build {}", m.module_name);
        for (sub_m, sub_f) in subs {
            plan.push_str(&format!(" (uses {} via {})", sub_m.module_name, sub_f));
        }
        plan
    });
    assert_eq!(count(&out), count(&dag));
    assert_eq!(out.directed_edges.len(), 1);
    assert_eq!(out.directed_edges[0].directed_edges.len(), 1);
    assert_eq!(
        out.directed_edges[0].directed_edges[0].directed_edges.len(),
        0
    );
    assert_eq!(out.node, "build top (uses mid via build mid (uses leaf via build leaf))");
}

#[test]
fn hierarchical_generates_children_first() {
    let dag = three_level_dag();
    let seen: RefCell<Vec<String>> = RefCell::new(Vec::new());
    let _ = rivet::dag::hierarchical(&dag, &|m: &ModuleInfo,
     _subs: Vec<(&ModuleInfo, &String)>|
     -> String {
        seen.borrow_mut().push(m.module_name.clone());
        m.module_name.clone()
    });
    let order = seen.into_inner();
    assert_eq!(order, vec!["leaf".to_string(), "mid".to_string(), "top".to_string()]);
}

fn flow_node(name: &str, syn: usize, par: usize) -> Sky130FlatFlow {
    Sky130FlatFlow { module: name.to_string(), syn, par }
}

#[test]
fn find_mut_reaches_any_depth() {
    let mut dag = Dag {
        node: flow_node("top", 0, 1),
        directed_edges: vec![Dag {
            node: flow_node("mid", 2, 3),
            directed_edges: vec![Dag { node: flow_node("leaf", 4, 5), directed_edges: vec![] }],
        }],
    };
    {
        let found = dag.get_mut(&"leaf".to_string());
        let leaf = found.expect("leaf is two levels below the root");
        assert_eq!(leaf.module, "leaf");
        assert_eq!(leaf.syn, 4);
        leaf.syn = 40;
    }
    assert_eq!(dag.directed_edges[0].directed_edges[0].node.syn, 40);
    assert!(dag.get_mut(&"missing".to_string()).is_none());
    assert_eq!(dag.get_mut(&"top".to_string()).unwrap().module, "top");
}

fn script_step(deps: Vec<usize>, pinned: bool) -> BashStep {
    BashStep {
        work_dir: ".".to_string(),
        command: "true".to_string(),
        pinned,
        dependencies: deps,
    }
}

/// A depends on B and C; both depend on the one shared node D.
fn diamond(pin_b: bool) -> Vec<BashStep> {
    let d = script_step(vec![], false);
    let b = script_step(vec![0], pin_b);
    let c = script_step(vec![0], false);
    let a = script_step(vec![1, 2], false);
    vec![d, b, c, a]
}

#[test]
fn diamond_runs_shared_node_once() {
    let nodes = diamond(false);
    let order = execution_order(&nodes, 3);
    assert_eq!(order, vec![0, 1, 2, 3]);
    assert_eq!(order.iter().filter(|&&i| i == 0).count(), 1);
    assert_eq!(*order.last().unwrap(), 3);
}

#[test]
fn equal_nodes_at_different_positions_each_run() {
    // Two structurally identical steps are distinct identities: both run.
    let d1 = script_step(vec![], false);
    let d2 = script_step(vec![], false);
    let a = script_step(vec![0, 1], false);
    let order = execution_order(&vec![d1, d2, a], 2);
    assert_eq!(order, vec![0, 1, 2]);
}

#[test]
fn pin_suppresses_only_the_node_not_its_subtree() {
    let nodes = diamond(true);
    let order = execution_order(&nodes, 3);
    assert_eq!(order, vec![0, 2, 3]);
    assert!(!order.contains(&1));
    assert_eq!(order.iter().filter(|&&i| i == 0).count(), 1);
}

#[test]
fn run_walks_the_order_on_success() {
    let nodes = diamond(false);
    let mut run = Run::new(&nodes, 3);
    let mut executed: Vec<usize> = Vec::new();
    while let Some(id) = run.current() {
        executed.push(id);
        run.report(true);
    }
    assert_eq!(executed, vec![0, 1, 2, 3]);
    assert!(run.current().is_none());
}

#[test]
fn failure_aborts_the_whole_run() {
    let nodes = diamond(false);
    let mut run = Run::new(&nodes, 3);
    assert_eq!(run.current(), Some(0));
    // D's execute fails: nothing else may run afterwards.
    run.report(false);
    assert_eq!(run.current(), None);
    assert_eq!(run.current(), None);
}

#[test]
fn pinned_target_yields_no_action_of_its_own() {
    let lone = vec![script_step(vec![], true)];
    let order = execution_order(&lone, 0);
    assert!(order.is_empty());
}

#[test]
fn step_trait_exposes_deps_and_pin() {
    let b = script_step(vec![4, 2], true);
    assert_eq!(b.deps(), vec![4, 2]);
    assert!(b.pinned());
}

#[test]
fn mixed_build_graph_schedules_across_stages() {
    // A synthesis node, the layout over it, and a script over both.
    let syn = GenusStep::new("syn".to_string(), "decoder".to_string(), vec![], false, vec![]);
    let par =
        InnovusStep::new("par".to_string(), "decoder".to_string(), vec![], false, vec![0]);
    let script = BashStep {
        work_dir: ".".to_string(),
        command: "echo done".to_string(),
        pinned: false,
        dependencies: vec![0, 1],
    };
    let nodes = vec![BuildStep::Syn(syn), BuildStep::Par(par), BuildStep::Script(script)];
    let order = execution_order(&nodes, 2);
    assert_eq!(order, vec![0, 1, 2]);
    let pinned_syn =
        GenusStep::new("syn".to_string(), "decoder".to_string(), vec![], true, vec![]);
    let nodes2 = vec![BuildStep::Syn(pinned_syn)];
    assert!(execution_order(&nodes2, 0).is_empty());
}
