use std::cell::RefCell;

use rivet::error::FlowError;
use rivet::flow::{get_steps_for_tool, Config, Flow, FlowNode, Step, Tool, ToolConfig, ToolStart};

fn step(name: &str, command: &str) -> Step {
    Step { name: name.to_string(), command: command.to_string(), checkpoint: None }
}

fn node(name: &str, deps: Vec<&str>) -> FlowNode {
    FlowNode {
        name: name.to_string(),
        work_dir: format!("{}-rundir", name),
        checkpoint_dir: format!("{}-rundir/checkpoints", name),
        steps: vec![step("s1", "one"), step("s2", "two"), step("s3", "three"), step("s4", "four")],
        deps: deps.into_iter().map(|d| d.to_string()).collect(),
    }
}

fn tool_config(start: Option<(&str, Option<&str>)>, stop: Option<&str>, pin: Option<bool>) -> ToolConfig {
    ToolConfig {
        start: start.map(|(s, cp)| ToolStart {
            step: s.to_string(),
            checkpoint: cp.map(|p| p.to_string()),
        }),
        stop: stop.map(|s| s.to_string()),
        pin,
    }
}

fn names(steps: &[Step]) -> Vec<&str> {
    steps.iter().map(|s| s.name.as_str()).collect()
}

#[test]
fn no_config_runs_every_step() {
    let n = node("syn", vec![]);
    let got = get_steps_for_tool(&n, None);
    assert_eq!(names(&got), vec!["s1", "s2", "s3", "s4"]);
}

#[test]
fn start_and_stop_slice_the_steps() {
    let n = node("syn", vec![]);
    let tc = tool_config(Some(("s2", None)), Some("s3"), None);
    let got = get_steps_for_tool(&n, Some(&tc));
    assert_eq!(names(&got), vec!["s2", "s3"]);
    assert_eq!(got[0].command, "two");
}

#[test]
fn unknown_start_falls_back_to_the_beginning() {
    let n = node("syn", vec![]);
    let tc = tool_config(Some(("nowhere", None)), Some("s2"), None);
    let got = get_steps_for_tool(&n, Some(&tc));
    assert_eq!(names(&got), vec!["s1", "s2"]);
    let tc2 = tool_config(Some(("s3", None)), None, None);
    let got2 = get_steps_for_tool(&n, Some(&tc2));
    assert_eq!(names(&got2), vec!["s3", "s4"]);
}

#[test]
fn crossed_bounds_leave_nothing_to_run() {
    let n = node("syn", vec![]);
    let tc = tool_config(Some(("s3", None)), Some("s2"), None);
    let got = get_steps_for_tool(&n, Some(&tc));
    assert!(got.is_empty());
}

#[test]
fn execute_orders_dependencies_first() {
    let flow = Flow::new(vec![node("leaf", vec![]), node("mid", vec!["leaf"]), node("top", vec![
        "mid",
    ])]);
    let config = Config { tools: vec![] };
    let plan = flow.execute(&"top".to_string(), &config).expect("top exists");
    let visited: Vec<&str> = plan.iter().map(|i| i.node.as_str()).collect();
    assert_eq!(visited, vec!["leaf", "mid", "top"]);
    assert_eq!(plan[0].work_dir, "leaf-rundir");
    assert_eq!(names(&plan[0].steps), vec!["s1", "s2", "s3", "s4"]);
    assert!(plan[0].start_checkpoint.is_none());
}

#[test]
fn pinned_node_is_not_invoked_but_its_deps_are() {
    // top depends on b and c; both depend on the shared leaf.
    let flow = Flow::new(vec![
        node("leaf", vec![]),
        node("b", vec!["leaf"]),
        node("c", vec!["leaf"]),
        node("top", vec!["b", "c"]),
    ]);
    let config = Config { tools: vec![("b".to_string(), tool_config(None, None, Some(true)))] };
    let plan = flow.execute(&"top".to_string(), &config).expect("top exists");
    let visited: Vec<&str> = plan.iter().map(|i| i.node.as_str()).collect();
    assert_eq!(visited, vec!["leaf", "c", "top"]);
}

#[test]
fn shared_dependency_invoked_once() {
    let flow = Flow::new(vec![
        node("leaf", vec![]),
        node("b", vec!["leaf"]),
        node("c", vec!["leaf"]),
        node("top", vec!["b", "c"]),
    ]);
    let config = Config { tools: vec![] };
    let plan = flow.execute(&"top".to_string(), &config).expect("top exists");
    let leaf_runs = plan.iter().filter(|i| i.node == "leaf").count();
    assert_eq!(leaf_runs, 1);
    assert_eq!(plan.len(), 4);
    assert_eq!(plan.last().unwrap().node, "top");
}

#[test]
fn configured_start_carries_its_checkpoint() {
    let flow = Flow::new(vec![node("syn", vec![])]);
    let config = Config {
        tools: vec![(
            "syn".to_string(),
            tool_config(Some(("s3", Some("checkpoints/s3.db"))), None, None),
        )],
    };
    let plan = flow.execute(&"syn".to_string(), &config).unwrap();
    assert_eq!(plan.len(), 1);
    assert_eq!(plan[0].start_checkpoint.as_deref(), Some("checkpoints/s3.db"));
    assert_eq!(names(&plan[0].steps), vec!["s3", "s4"]);
}

#[test]
fn a_node_with_nothing_to_run_is_skipped() {
    let flow = Flow::new(vec![node("leaf", vec![]), node("top", vec!["leaf"])]);
    let config = Config {
        tools: vec![("leaf".to_string(), tool_config(Some(("s4", None)), Some("s1"), None))],
    };
    let plan = flow.execute(&"top".to_string(), &config).unwrap();
    let visited: Vec<&str> = plan.iter().map(|i| i.node.as_str()).collect();
    assert_eq!(visited, vec!["top"]);
}

#[test]
fn unknown_node_is_the_only_error() {
    let flow = Flow::new(vec![node("syn", vec![])]);
    let config = Config { tools: vec![] };
    match flow.execute(&"par".to_string(), &config) {
        Err(FlowError::NodeNotFound { name }) => assert_eq!(name, "par"),
        _ => panic!("expected NodeNotFound"),
    }
}

#[test]
fn config_lookup_takes_the_first_entry() {
    let config = Config {
        tools: vec![
            ("syn".to_string(), tool_config(None, None, Some(true))),
            ("syn".to_string(), tool_config(None, None, Some(false))),
        ],
    };
    let tc = config.get(&"syn".to_string()).expect("configured");
    assert_eq!(tc.pin, Some(true));
    assert!(config.get(&"par".to_string()).is_none());
}

struct RecordingTool {
    invoked: RefCell<Vec<(String, Option<String>, Vec<String>)>>,
}

impl Tool for RecordingTool {
    fn invoke(&self, work_dir: String, start_checkpoint: Option<String>, steps: Vec<Step>) {
        let names = steps.into_iter().map(|s| s.name).collect();
        self.invoked.borrow_mut().push((work_dir, start_checkpoint, names));
    }
}

#[test]
fn test_basic_flow() {
    let s1 = Step {
        name: "step_1".to_string(),
        command: "echo \"1\" >> dummydb.txt".to_string(),
        checkpoint: Some("step_1.checkpoint".to_string()),
    };
    let s15 = Step {
        name: "step_15".to_string(),
        command: "echo \"step_1.5\"".to_string(),
        checkpoint: None,
    };
    let s2 = Step {
        name: "step_2".to_string(),
        command: "echo \"2\" >> dummydb.txt".to_string(),
        checkpoint: Some("step_2.checkpoint".to_string()),
    };
    let flno = FlowNode {
        name: "test".to_string(),
        work_dir: ".".to_string(),
        checkpoint_dir: "checkpoints".to_string(),
        steps: vec![s1, s15, s2],
        deps: vec![],
    };
    let flow = Flow::new(vec![flno]);
    let tool = RecordingTool { invoked: RefCell::new(Vec::new()) };
    let plan = flow.execute(&"test".to_string(), &Config { tools: vec![] }).unwrap();
    for invocation in plan {
        tool.invoke(invocation.work_dir, invocation.start_checkpoint, invocation.steps);
    }
    let invoked = tool.invoked.into_inner();
    assert_eq!(invoked.len(), 1);
    assert_eq!(invoked[0].0, ".");
    assert_eq!(invoked[0].1, None);
    assert_eq!(invoked[0].2, vec!["step_1", "step_15", "step_2"]);
    assert_eq!(2 + 2, 4)
}
