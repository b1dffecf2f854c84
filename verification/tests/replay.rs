use rivet::error::FlowError;
use rivet::genus::{
    dont_avoid_lib_cells, elaborate, power_intent, power_spec_text, set_default_options,
    syn_generic, syn_init_design, syn_map, syn_read_design_files, GenusStep,
};
use rivet::innovus::{
    add_fillers, innovus_settings, opt_design, par_init_design, par_read_design_files, place_pins,
    place_tap_cells, power_straps, route_design, set_default_process, write_regs, InnovusStep,
    Layer, PinAssignment,
};
use rivet::genus::syn_write_design;
use rust_decimal::Decimal;
use rivet::pegasus::PegasusStep;
use rivet::substep::{SubmoduleInfo, Substep};

fn substep(name: &str, command: &str, checkpoint: bool) -> Substep {
    Substep { name: name.to_string(), command: command.to_string(), checkpoint }
}

fn four_steps() -> Vec<Substep> {
    vec![
        substep("s1", "cmd_one", false),
        substep("s2", "cmd_two", false),
        substep("s3", "cmd_three", false),
        substep("s4", "cmd_four", false),
    ]
}

fn genus_node(steps: Vec<Substep>) -> GenusStep {
    GenusStep::new("work".to_string(), "decoder".to_string(), steps, false, vec![])
}

#[test]
fn checkpoint_slices_the_script() {
    let mut node = genus_node(four_steps());
    node.add_checkpoint("s2".to_string(), "work/s2.checkpoint".to_string());
    let script = node.script().expect("the checkpoint names a substep");
    assert_eq!(
        script,
        "set_db super_thread_debug_directory super_thread_debug\n\
         read_db work/s2.checkpoint\n\
         cmd_two\ncmd_three\ncmd_four\nquit\n"
    );
    assert!(!script.contains("cmd_one"));
}

#[test]
fn missing_checkpoint_fails_the_node() {
    let mut node = genus_node(four_steps());
    node.add_checkpoint("s9".to_string(), "work/s9.checkpoint".to_string());
    match node.script() {
        Err(FlowError::CheckpointNotFound { name }) => {
            assert_eq!(name, "s9");
        }
        other => panic!("expected CheckpointNotFound, got {:?}", other.is_ok()),
    }
}

#[test]
fn error_messages_name_the_failure() {
    let e = FlowError::CheckpointNotFound { name: "s9".to_string() };
    assert_eq!(e.message(), "checkpoint not found: s9");
    let n = FlowError::NodeNotFound { name: "par".to_string() };
    assert_eq!(n.message(), "node not found in flow: par");
    assert_eq!(FlowError::CompositionFailure.message(), "composition failed");
    assert_eq!(
        FlowError::ScriptIOFailure.message(),
        "failed to write script or checkpoint"
    );
    assert_eq!(
        FlowError::ExternalToolFailure { exit_code: 2 }.message(),
        "external tool failed"
    );
}

#[test]
fn flagged_substep_persists_after_its_command() {
    let steps = vec![substep("syn_generic", "syn_generic", true)];
    let node = genus_node(steps);
    let script = node.script().unwrap();
    assert_eq!(
        script,
        "set_db super_thread_debug_directory super_thread_debug\n\
         syn_generic\nwrite_db -to_file work/syn_generic.checkpoint\nquit\n"
    );
}

#[test]
fn layout_script_has_its_own_dialect() {
    let steps = vec![substep("place", "place_opt_design", true)];
    let mut node =
        InnovusStep::new("par".to_string(), "decoder".to_string(), steps, false, vec![]);
    let script = node.script().unwrap();
    assert_eq!(script, "place_opt_design\nwrite_db par/place.checkpoint\nexit\n");
    node.add_checkpoint("place".to_string(), "par/place.checkpoint".to_string());
    let resumed = node.script().unwrap();
    assert_eq!(
        resumed,
        "read_db par/place.checkpoint\nplace_opt_design\nwrite_db par/place.checkpoint\nexit\n"
    );
}

#[test]
fn add_hook_inserts_at_the_position() {
    let mut node = genus_node(four_steps());
    node.add_hook("patch", "patch_cmd", 1, true);
    assert_eq!(node.substeps.len(), 5);
    assert_eq!(node.substeps[0].name, "s1");
    assert_eq!(node.substeps[1].name, "patch");
    assert_eq!(node.substeps[1].command, "patch_cmd");
    assert!(node.substeps[1].checkpoint);
    assert_eq!(node.substeps[2].name, "s2");
    assert_eq!(node.substeps[4].name, "s4");
}

#[test]
fn replace_hook_swaps_the_named_substep_in_place() {
    let mut node =
        InnovusStep::new("par".to_string(), "decoder".to_string(), four_steps(), false, vec![]);
    node.replace_hook("s3_fixed", "better_cmd", "s3", true);
    assert_eq!(node.substeps.len(), 4);
    assert_eq!(node.substeps[2].name, "s3_fixed");
    assert_eq!(node.substeps[2].command, "better_cmd");
    assert!(node.substeps[2].checkpoint);
    assert_eq!(node.substeps[1].name, "s2");
    node.replace_hook("nobody", "noop", "absent", false);
    assert_eq!(node.substeps[2].name, "s3_fixed");
    assert_eq!(node.substeps.len(), 4);
}

#[test]
fn netlist_and_artifact_paths() {
    let mut node = genus_node(vec![]);
    node.netlist = Some("work/decoder.mapped.v".to_string());
    assert_eq!(node.netlist(), "work/decoder.mapped.v");
    let par = InnovusStep::new("par".to_string(), "decoder".to_string(), vec![], false, vec![]);
    assert_eq!(par.ilm_path(), "par/decoderILMDir");
    assert_eq!(par.lef_path(), "par/decoderILM.lef");
    assert_eq!(par.sdc_path(), "par/decoder.mapped.sdc");
}

#[test]
fn verification_node_materializes_a_control_file() {
    let node = PegasusStep::new(
        "drc".to_string(),
        "drc".to_string(),
        "decoder".to_string(),
        false,
        vec![],
    );
    let steps = vec![substep("check", "run_checks", true)];
    let ctl = node.ctl_script(&steps, &Some("latest".to_string()));
    assert_eq!(
        ctl,
        "read_db drc/latest\nrun_checks\nwrite_db -to_file drc/check.checkpoint\nquit\n"
    );
    let plain = node.ctl_script(&steps, &None);
    assert_eq!(plain, "run_checks\nwrite_db -to_file drc/check.checkpoint\nquit\n");
}

#[test]
fn synthesis_substep_builders() {
    let module = "decoder".to_string();
    let e = elaborate(&module);
    assert_eq!(e.name, "elaborate");
    assert_eq!(e.command, "elaborate decoder");
    assert!(!e.checkpoint);
    let i = syn_init_design(&module);
    assert_eq!(i.command, "init_design -top decoder");
    let g = syn_generic();
    assert_eq!(g.command, "syn_generic");
    assert!(g.checkpoint);
    let m = syn_map();
    assert_eq!(m.command, "syn_map");
    assert!(m.checkpoint);
    let o = set_default_options();
    assert_eq!(o.name, "set_default_options");
    assert!(!o.checkpoint);
    assert!(o.command.contains("set_db lp_insert_clock_gating  true"));
    let d = dont_avoid_lib_cells("ICGX1");
    assert_eq!(d.name, "dont_avoid_lib_cells_ICGX1");
    assert_eq!(
        d.command,
        "set_db [get_db lib_cells -if {.base_name == ICGX1}] .avoid false"
    );
}

#[test]
fn layout_substep_builders() {
    let p = set_default_process(130);
    assert_eq!(p.name, "set_default_options");
    assert!(p.command.starts_with("set_db design_process_node 130\n"));
    let i = par_init_design();
    assert_eq!(i.command, "init_design");
    let s = innovus_settings(2, 6);
    assert!(s.command.starts_with("set_db design_bottom_routing_layer 2\n"));
    assert!(s.command.contains("set_db design_top_routing_layer 6\n"));
    let t = place_tap_cells();
    assert_eq!(t.command, "");
    assert!(t.checkpoint);
    let f = add_fillers(vec!["FILL0".to_string(), "FILL1".to_string(), "FILL4".to_string()]);
    assert_eq!(
        f.command,
        "set_db add_fillers_cells \"FILL0 FILL1 FILL4\"\nadd_fillers\n"
    );
    let r = route_design();
    assert!(r.command.contains("route_design"));
    let o = opt_design();
    assert!(o.command.contains("opt_design -post_route -setup -hold"));
}

#[test]
fn pin_placement_lists_every_assignment() {
    let a = PinAssignment {
        pins: "*".to_string(),
        module: "decoder".to_string(),
        patterns: "-spread_type range".to_string(),
        layer: "-layer {met4}".to_string(),
        side: "-side bottom".to_string(),
        start: "-start {30 0}".to_string(),
        end: "-end {0 0}".to_string(),
        assign: "".to_string(),
        width: "".to_string(),
        depth: "".to_string(),
    };
    let s = place_pins("5", "1", vec![a]);
    assert_eq!(s.name, "place_pins");
    assert!(s.checkpoint);
    assert!(s.command.starts_with(
        "set_db assign_pins_edit_in_batch true\n\
         set_db assign_pins_promoted_macro_bottom_layer 1\n\
         set_db assign_pins_promoted_macro_top_layer 5\n"
    ));
    assert!(s.command.contains(
        "edit_pin -fixed_pin -pin * -hinst decoder -spread_type range -layer {met4} \
         -side bottom -start {30 0} -end {0 0}   \n"
    ));
    assert!(s.command.ends_with("set_db assign_pins_edit_in_batch false\n"));
}

#[test]
fn power_intent_reads_the_written_spec() {
    let wd = "syn".to_string();
    let s = power_intent(&wd);
    assert_eq!(s.name, "power_intent");
    assert!(s.checkpoint);
    assert_eq!(
        s.command,
        "read_power_intent -cpf syn/power_spec.cpf\napply_power_intent -summary\ncommit_power_intent\n"
    );
    let cpf = power_spec_text("decoder");
    assert!(cpf.starts_with("set_cpf_version 1.0e\nset_hierarchy_separator /\nset_design decoder\n"));
    assert!(cpf.ends_with("end_design\n"));
    assert!(cpf.contains("create_power_nets -nets VDD -voltage 1.8"));
}

#[test]
fn read_design_files_lists_submodule_views() {
    let subs = vec![SubmoduleInfo {
        name: "fulladder".to_string(),
        ilm: "build-fulladder/par-rundir/fulladderILMDir".to_string(),
        lef: "build-fulladder/par-rundir/fulladderILM.lef".to_string(),
    }];
    let syn = syn_read_design_files(
        &"syn".to_string(),
        &"src/top.v".to_string(),
        &"pdk/tech.tlef".to_string(),
        &"pdk/cells.lef".to_string(),
        &subs,
    );
    assert_eq!(syn.name, "read_design_files");
    assert_eq!(
        syn.command,
        "read_mmmc syn/mmmc.tcl\n\
         read_physical -lef { pdk/tech.tlef pdk/cells.lef build-fulladder/par-rundir/fulladderILM.lef }\n\
         read_hdl -sv src/top.v\n\
         read_ilm -cell fulladder -directory build-fulladder/par-rundir/fulladderILMDir\n"
    );
    let par = par_read_design_files(
        &"par".to_string(),
        &"top".to_string(),
        &"syn/top.mapped.v".to_string(),
        &"pdk/tech.tlef".to_string(),
        &"pdk/cells.lef".to_string(),
        &subs,
    );
    assert_eq!(
        par.command,
        "read_physical -lef { pdk/tech.tlef pdk/cells.lef build-fulladder/par-rundir/fulladderILM.lef }\n\
         read_mmmc par/mmmc.tcl\n\
         read_netlist syn/top.mapped.v -top top\n\
         read_ilm -cell fulladder -directory build-fulladder/par-rundir/fulladderILMDir\n"
    );
}

#[test]
fn write_design_emits_the_module_artifacts() {
    let s = syn_write_design("decoder");
    assert_eq!(s.name, "write_design");
    assert!(s.checkpoint);
    assert!(s.command.starts_with("set write_cells_ir \"./find_regs_cells.json\"\n"));
    assert!(s.command.contains("puts $write_cells_ir \"\\[\"\n"));
    assert!(s.command.contains("write_hdl > decoder.mapped.v\n"));
    assert!(s.command.contains("write_sdc -view ss_100C_1v60.setup_view > decoder.mapped.sdc\n"));
    assert!(s.command.ends_with("write_design -gzip_files decoder\n"));
}

#[test]
fn write_regs_flattens_around_the_reports() {
    let s = write_regs();
    assert_eq!(s.name, "write_regs");
    assert!(s.command.starts_with("flatten_ilm\n\n"));
    assert!(s.command.contains("set write_regs_ir \"./find_regs_paths.json\"\n"));
    assert!(s.command.ends_with("unflatten_ilm\n"));
}

#[test]
fn power_straps_define_each_layer() {
    let layer = Layer {
        top: "met4".to_string(),
        bot: "met1".to_string(),
        spacing: Decimal::new(2000, 3),
        trim_antenna: true,
        add_stripes_command: "add_stripes -nets {VDD VSS} -layer met4".to_string(),
    };
    let s = power_straps(vec![layer]);
    assert_eq!(s.name, "power_straps");
    assert!(s.checkpoint);
    assert_eq!(
        s.command,
        "#Power strap definition for layer met4:\n\
         set_db add_stripes_stacked_via_top_layer met4\n\
         set_db add_stripes_stacked_via_bottom_layer met1\n\
         set_db add_stripes_trim_antenna_back_to_shape {stripe}\n\
         set_db add_stripes_spacing_from_block 2.000\n\
         add_stripes -nets {VDD VSS} -layer met4\n"
    );
}
