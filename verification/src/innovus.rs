//! The place-and-route build node: owns the substep sequence of one
//! place-and-route run and materializes it into the tool's script, resuming
//! from a checkpoint when one is set.  The hook methods customize the
//! sequence before the graph is scheduled.

use vstd::prelude::*;

use crate::sched::{copy_ids, Step, StepId};
use crate::substep::{
    append_script_body, find_substep, position_of, script_body, Checkpoint, SubmoduleInfo, Substep,
};
use crate::error::FlowError;
use crate::cadence::{decimal_str, decimal_to_string};
use crate::genus::{append_ilm_lines, append_sub_lefs, ilm_lines, sub_lefs};
use crate::text::{append_u64, dec_str};

verus! {

/// The instruction persisting the tool state to a file.
pub open spec fn innovus_write_prefix() -> Seq<char> {
    "write_db "@
}

/// A place-and-route run of one module.
pub struct InnovusStep {
    pub work_dir: String,
    pub module: String,
    pub substeps: Vec<Substep>,
    pub pinned: bool,
    pub start_checkpoint: Option<Checkpoint>,
    pub dependencies: Vec<StepId>,
}

impl InnovusStep {
    /// A fresh place-and-route node: no starting checkpoint.
    pub fn new(
        work_dir: String,
        module: String,
        substeps: Vec<Substep>,
        pinned: bool,
        deps: Vec<StepId>,
    ) -> (r: InnovusStep)
        ensures
            r.work_dir == work_dir,
            r.module == module,
            r.substeps == substeps,
            r.pinned == pinned,
            r.start_checkpoint is None,
            r.dependencies == deps,
    {
        InnovusStep { work_dir, module, substeps, pinned, start_checkpoint: None, dependencies: deps }
    }

    /// The script this node materializes: the restore instruction when a
    /// starting checkpoint is set, the substeps from the checkpointed one on
    /// (all of them otherwise), and `exit`.  `None` when the starting
    /// checkpoint names no substep.
    pub open spec fn spec_script(&self) -> Option<Seq<char>> {
        match self.start_checkpoint {
            None => Some(
                script_body(self.substeps@, self.work_dir@, innovus_write_prefix()) + "exit\n"@,
            ),
            Some(cp) => match find_substep(self.substeps@, cp.name@) {
                None => None,
                Some(i) => Some(
                    "read_db "@ + cp.path@ + "\n"@ + script_body(
                        self.substeps@.skip(i),
                        self.work_dir@,
                        innovus_write_prefix(),
                    ) + "exit\n"@,
                ),
            },
        }
    }

    /// Materialize the script.  When a starting checkpoint is set, the
    /// substeps before the one it names are skipped entirely, and a restore
    /// instruction for the checkpoint's path comes first; a checkpoint
    /// naming no substep is the error, and the only one.
    pub fn script(&self) -> (r: Result<String, FlowError>)
        ensures
            r matches Ok(text) ==> Some(text@) == self.spec_script(),
            r is Err <==> self.spec_script() is None,
            r matches Err(e) ==> (e matches FlowError::CheckpointNotFound { name }
                && self.start_checkpoint matches Some(cp) && name@ == cp.name@),
    {
        let mut out = String::new();
        let from: usize = match &self.start_checkpoint {
            None => 0,
            Some(cp) => match position_of(&self.substeps, &cp.name) {
                Some(i) => {
                    out.append("read_db ");
                    out.append(cp.path.as_str());
                    out.append("\n");
                    i
                },
                None => {
                    return Err(FlowError::CheckpointNotFound { name: cp.name.clone() });
                },
            },
        };
        append_script_body(&mut out, &self.substeps, from, &self.work_dir, "write_db ");
        out.append("exit\n");
        proof {
            match &self.start_checkpoint {
                None => {
                    assert(self.substeps@.skip(0) =~= self.substeps@);
                    assert(out@ =~= script_body(
                        self.substeps@,
                        self.work_dir@,
                        innovus_write_prefix(),
                    ) + "exit\n"@);
                },
                Some(cp) => {
                    let i = find_substep(self.substeps@, cp.name@).unwrap();
                    assert(out@ =~= "read_db "@ + cp.path@ + "\n"@ + script_body(
                        self.substeps@.skip(i),
                        self.work_dir@,
                        innovus_write_prefix(),
                    ) + "exit\n"@);
                },
            }
        }
        Ok(out)
    }

    /// Insert a substep at the given position of the sequence, before the
    /// graph is scheduled.
    pub fn add_hook(&mut self, name: &str, tcl: &str, index: usize, checkpointed: bool)
        requires
            index <= old(self).substeps@.len(),
        ensures
            final(self).substeps@.len() == old(self).substeps@.len() + 1,
            final(self).substeps@[index as int].name@ == name@,
            final(self).substeps@[index as int].command@ == tcl@,
            final(self).substeps@[index as int].checkpoint == checkpointed,
            forall|j: int| 0 <= j < index ==> final(self).substeps@[j] == old(self).substeps@[j],
            forall|j: int|
                index < j < final(self).substeps@.len() ==> final(self).substeps@[j] == old(
                    self,
                ).substeps@[j - 1],
            final(self).work_dir == old(self).work_dir,
            final(self).module == old(self).module,
            final(self).pinned == old(self).pinned,
            final(self).start_checkpoint == old(self).start_checkpoint,
            final(self).dependencies == old(self).dependencies,
    {
        self.substeps.insert(
            index,
            Substep {
                name: String::from_str(name),
                command: String::from_str(tcl),
                checkpoint: checkpointed,
            },
        );
    }

    /// Replace the first substep carrying `replaced_substep_name` in place;
    /// when no substep carries it, the sequence is untouched.
    pub fn replace_hook(
        &mut self,
        new_substep_name: &str,
        tcl: &str,
        replaced_substep_name: &str,
        checkpointed: bool,
    )
        ensures
            final(self).work_dir == old(self).work_dir,
            final(self).module == old(self).module,
            final(self).pinned == old(self).pinned,
            final(self).start_checkpoint == old(self).start_checkpoint,
            final(self).dependencies == old(self).dependencies,
            match find_substep(old(self).substeps@, replaced_substep_name@) {
                None => final(self).substeps == old(self).substeps,
                Some(i) => {
                    &&& final(self).substeps@.len() == old(self).substeps@.len()
                    &&& final(self).substeps@[i].name@ == new_substep_name@
                    &&& final(self).substeps@[i].command@ == tcl@
                    &&& final(self).substeps@[i].checkpoint == checkpointed
                    &&& forall|j: int|
                        0 <= j < old(self).substeps@.len() && j != i ==> final(self).substeps@[j]
                            == old(self).substeps@[j]
                },
            },
    {
        let target = String::from_str(replaced_substep_name);
        match position_of(&self.substeps, &target) {
            Some(index) => {
                self.substeps.set(
                    index,
                    Substep {
                        name: String::from_str(new_substep_name),
                        command: String::from_str(tcl),
                        checkpoint: checkpointed,
                    },
                );
            },
            None => {},
        }
    }

    /// Where this run leaves the interface model of its module.
    pub fn ilm_path(&self) -> (r: String)
        ensures
            r@ == self.work_dir@ + "/"@ + self.module@ + "ILMDir"@,
    {
        let mut r = String::new();
        r.append(self.work_dir.as_str());
        r.append("/");
        r.append(self.module.as_str());
        r.append("ILMDir");
        r
    }

    /// Where this run leaves the abstract view of its module.
    pub fn lef_path(&self) -> (r: String)
        ensures
            r@ == self.work_dir@ + "/"@ + self.module@ + "ILM.lef"@,
    {
        let mut r = String::new();
        r.append(self.work_dir.as_str());
        r.append("/");
        r.append(self.module.as_str());
        r.append("ILM.lef");
        r
    }

    /// Where this run leaves the mapped timing constraints of its module.
    pub fn sdc_path(&self) -> (r: String)
        ensures
            r@ == self.work_dir@ + "/"@ + self.module@ + ".mapped.sdc"@,
    {
        let mut r = String::new();
        r.append(self.work_dir.as_str());
        r.append("/");
        r.append(self.module.as_str());
        r.append(".mapped.sdc");
        r
    }

    /// Resume this node from a named checkpoint: the substeps before the
    /// named one will be skipped and the persisted state at `checkpoint_path`
    /// restored first.
    pub fn add_checkpoint(&mut self, name: String, checkpoint_path: String)
        ensures
            final(self).start_checkpoint matches Some(cp) && cp.name == name && cp.path
                == checkpoint_path,
            final(self).work_dir == old(self).work_dir,
            final(self).module == old(self).module,
            final(self).substeps == old(self).substeps,
            final(self).pinned == old(self).pinned,
            final(self).dependencies == old(self).dependencies,
    {
        self.start_checkpoint = Some(Checkpoint { name, path: checkpoint_path });
    }
}

impl Step for InnovusStep {
    open spec fn spec_deps(&self) -> Seq<StepId> {
        self.dependencies@
    }

    open spec fn spec_pinned(&self) -> bool {
        self.pinned
    }

    fn deps(&self) -> (r: Vec<StepId>) {
        copy_ids(&self.dependencies)
    }

    fn pinned(&self) -> (r: bool) {
        self.pinned
    }
}

/// One pin-placement directive handed to the pin placer, field for field as
/// the `edit_pin` instruction takes them.
pub struct PinAssignment {
    pub pins: String,
    pub module: String,
    pub patterns: String,
    pub layer: String,
    pub side: String,
    pub start: String,
    pub end: String,
    pub assign: String,
    pub width: String,
    pub depth: String,
}

/// The substep setting the process node and timing analysis defaults.
pub fn set_default_process(node_size: u64) -> (r: Substep)
    ensures
        r.name@ == "set_default_options"@,
        r.command@ == "set_db design_process_node "@ + dec_str(node_size as nat)
            + "\nset_multi_cpu_usage -local_cpu 12\nset_db timing_analysis_cppr both\nset_db timing_analysis_type ocv\n"@,
        r.checkpoint == false,
{
    let mut command = String::from_str("set_db design_process_node ");
    append_u64(&mut command, node_size);
    command.append(
        "\nset_multi_cpu_usage -local_cpu 12\nset_db timing_analysis_cppr both\nset_db timing_analysis_type ocv\n",
    );
    Substep { checkpoint: false, name: String::from_str("set_default_options"), command }
}

/// The substep initializing the place-and-route run.
pub fn par_init_design() -> (r: Substep)
    ensures
        r.name@ == "init_design"@,
        r.command@ == "init_design"@,
        r.checkpoint == false,
{
    Substep {
        checkpoint: false,
        command: String::from_str("init_design"),
        name: String::from_str("init_design"),
    }
}

/// The substep bounding the routing layers and the design efforts.
pub fn innovus_settings(bottom_routing: u64, top_routing: u64) -> (r: Substep)
    ensures
        r.name@ == "innovus_settings"@,
        r.command@ == "set_db design_bottom_routing_layer "@ + dec_str(bottom_routing as nat)
            + "\nset_db design_top_routing_layer "@ + dec_str(top_routing as nat)
            + "\nset_db design_flow_effort standard\nset_db design_power_effort low\n"@,
        r.checkpoint == false,
{
    let mut command = String::from_str("set_db design_bottom_routing_layer ");
    append_u64(&mut command, bottom_routing);
    command.append("\nset_db design_top_routing_layer ");
    append_u64(&mut command, top_routing);
    command.append("\nset_db design_flow_effort standard\nset_db design_power_effort low\n");
    Substep { checkpoint: false, name: String::from_str("innovus_settings"), command }
}

/// The tap-cell placement substep; its result persists as a checkpoint.
pub fn place_tap_cells() -> (r: Substep)
    ensures
        r.name@ == "place_tap_cells"@,
        r.command@ == Seq::<char>::empty(),
        r.checkpoint == true,
{
    Substep {
        checkpoint: true,
        command: String::new(),
        name: String::from_str("place_tap_cells"),
    }
}

/// The `edit_pin` instruction of one pin-placement directive.
pub open spec fn pin_line(a: PinAssignment) -> Seq<char> {
    "edit_pin -fixed_pin -pin "@ + a.pins@ + " -hinst "@ + a.module@ + " "@ + a.patterns@ + " "@
        + a.layer@ + " "@ + a.side@ + " "@ + a.start@ + " "@ + a.end@ + " "@ + a.assign@ + " "@
        + a.width@ + " "@ + a.depth@ + "\n"@
}

/// The `edit_pin` instructions of a directive list, in order.
pub open spec fn pin_lines(assignments: Seq<PinAssignment>) -> Seq<char>
    decreases assignments.len(),
{
    if assignments.len() == 0 {
        Seq::<char>::empty()
    } else {
        pin_lines(assignments.drop_last()) + pin_line(assignments.last())
    }
}

/// The opening lines of the pin-placement substep.
pub open spec fn place_pins_header(top_layer: Seq<char>, bot_layer: Seq<char>) -> Seq<char> {
    "set_db assign_pins_edit_in_batch true\nset_db assign_pins_promoted_macro_bottom_layer "@
        + bot_layer + "\nset_db assign_pins_promoted_macro_top_layer "@ + top_layer
        + "\nset all_ppins \"\" \n"@
}

/// The closing lines of the pin-placement substep.
pub open spec fn place_pins_footer() -> Seq<char> {
    "if {[llength $all_ppins] ne 0} {assign_io_pins -move_fixed_pin -pins [get_db $all_ppins .net.name]}\nset_db assign_pins_edit_in_batch false\n"@
}

/// The pin-placement substep: batch mode on, the promoted-macro layer
/// bounds, one `edit_pin` instruction per directive in order, and batch mode
/// off.  Its result persists as a checkpoint.
#[verifier::rlimit(100)]
pub fn place_pins(top_layer: &str, bot_layer: &str, assignments: Vec<PinAssignment>) -> (r:
    Substep)
    ensures
        r.name@ == "place_pins"@,
        r.command@ == place_pins_header(top_layer@, bot_layer@) + pin_lines(assignments@)
            + place_pins_footer(),
        r.checkpoint == true,
{
    let mut command = String::from_str(
        "set_db assign_pins_edit_in_batch true\nset_db assign_pins_promoted_macro_bottom_layer ",
    );
    command.append(bot_layer);
    command.append("\nset_db assign_pins_promoted_macro_top_layer ");
    command.append(top_layer);
    command.append("\nset all_ppins \"\" \n");
    let ghost header_done = command@;
    proof {
        assert(header_done =~= place_pins_header(top_layer@, bot_layer@));
    }
    let n: usize = assignments.len();
    let mut k: usize = 0;
    proof {
        assert(assignments@.subrange(0, 0) =~= Seq::<PinAssignment>::empty());
    }
    while k < n
        invariant
            n == assignments@.len(),
            0 <= k <= n,
            command@ == header_done + pin_lines(assignments@.subrange(0, k as int)),
        decreases n - k,
    {
        command.append("edit_pin -fixed_pin -pin ");
        command.append(assignments[k].pins.as_str());
        command.append(" -hinst ");
        command.append(assignments[k].module.as_str());
        command.append(" ");
        command.append(assignments[k].patterns.as_str());
        command.append(" ");
        command.append(assignments[k].layer.as_str());
        command.append(" ");
        command.append(assignments[k].side.as_str());
        command.append(" ");
        command.append(assignments[k].start.as_str());
        command.append(" ");
        command.append(assignments[k].end.as_str());
        command.append(" ");
        command.append(assignments[k].assign.as_str());
        command.append(" ");
        command.append(assignments[k].width.as_str());
        command.append(" ");
        command.append(assignments[k].depth.as_str());
        command.append("\n");
        proof {
            let upto = assignments@.subrange(0, k as int + 1);
            assert(upto.drop_last() =~= assignments@.subrange(0, k as int));
            assert(upto.last() == assignments@[k as int]);
            assert(command@ =~= header_done + pin_lines(upto));
        }
        k += 1;
    }
    command.append(
        "if {[llength $all_ppins] ne 0} {assign_io_pins -move_fixed_pin -pins [get_db $all_ppins .net.name]}\nset_db assign_pins_edit_in_batch false\n",
    );
    proof {
        assert(assignments@.subrange(0, n as int) =~= assignments@);
        assert(command@ =~= place_pins_header(top_layer@, bot_layer@) + pin_lines(assignments@)
            + place_pins_footer());
    }
    Substep { checkpoint: true, command, name: String::from_str("place_pins") }
}

/// The placement-optimization substep: fail on unplaced pins, apply the
/// given timing constraints if any, then optimize placement.  Its result
/// persists as a checkpoint.
pub fn place_opt_design(sdc_files: Option<String>) -> (r: Substep)
    ensures
        r.name@ == "place_opt_design"@,
        r.checkpoint == true,
        r.command@ == "set unplaced_pins [get_db ports -if {.place_status == unplaced}]\nif {$unplaced_pins ne \"\"} {\n    print_message -error \"Some pins remain unplaced: $unplaced_pins\"\n    exit 2\n}\n"@
            + (match sdc_files {
            Some(p) => p@,
            None => Seq::<char>::empty(),
        }) + "\nset_db opt_enable_podv2_clock_opt_flow true\nplace_opt_design\n"@,
{
    let mut command = String::from_str(
        "set unplaced_pins [get_db ports -if {.place_status == unplaced}]\nif {$unplaced_pins ne \"\"} {\n    print_message -error \"Some pins remain unplaced: $unplaced_pins\"\n    exit 2\n}\n",
    );
    match &sdc_files {
        Some(p) => {
            command.append(p.as_str());
        },
        None => {},
    }
    command.append("\nset_db opt_enable_podv2_clock_opt_flow true\nplace_opt_design\n");
    Substep { checkpoint: true, command, name: String::from_str("place_opt_design") }
}

/// The filler-cell list joined with spaces.
pub open spec fn joined_cells(cells: Seq<String>) -> Seq<char>
    decreases cells.len(),
{
    if cells.len() == 0 {
        Seq::<char>::empty()
    } else if cells.len() == 1 {
        cells[0]@
    } else {
        joined_cells(cells.drop_last()) + " "@ + cells.last()@
    }
}

/// The filler-insertion substep; its result persists as a checkpoint.
pub fn add_fillers(filler_cells: Vec<String>) -> (r: Substep)
    ensures
        r.name@ == "add_fillers"@,
        r.command@ == "set_db add_fillers_cells \""@ + joined_cells(filler_cells@)
            + "\"\nadd_fillers\n"@,
        r.checkpoint == true,
{
    let mut command = String::from_str("set_db add_fillers_cells \"");
    let n: usize = filler_cells.len();
    let mut k: usize = 0;
    let ghost start = command@;
    proof {
        assert(filler_cells@.subrange(0, 0) =~= Seq::<String>::empty());
    }
    while k < n
        invariant
            n == filler_cells@.len(),
            0 <= k <= n,
            command@ == start + joined_cells(filler_cells@.subrange(0, k as int)),
        decreases n - k,
    {
        if k > 0 {
            command.append(" ");
        }
        command.append(filler_cells[k].as_str());
        proof {
            let upto = filler_cells@.subrange(0, k as int + 1);
            assert(upto.drop_last() =~= filler_cells@.subrange(0, k as int));
            assert(upto.last() == filler_cells@[k as int]);
            if k == 0 {
                assert(upto.len() == 1);
            }
            assert(command@ =~= start + joined_cells(upto));
        }
        k += 1;
    }
    command.append("\"\nadd_fillers\n");
    proof {
        assert(filler_cells@.subrange(0, n as int) =~= filler_cells@);
        assert(command@ =~= "set_db add_fillers_cells \""@ + joined_cells(filler_cells@)
            + "\"\nadd_fillers\n"@);
    }
    Substep { checkpoint: true, command, name: String::from_str("add_fillers") }
}

/// The routing substep; its result persists as a checkpoint.
pub fn route_design() -> (r: Substep)
    ensures
        r.name@ == "route_design"@,
        r.command@ == "flatten_ilm\nset_db design_express_route true\nroute_design\n"@,
        r.checkpoint == true,
{
    Substep {
        checkpoint: true,
        command: String::from_str("flatten_ilm\nset_db design_express_route true\nroute_design\n"),
        name: String::from_str("route_design"),
    }
}

/// The post-route optimization substep; its result persists as a checkpoint.
pub fn opt_design() -> (r: Substep)
    ensures
        r.name@ == "opt_design"@,
        r.command@ == "set_db opt_post_route_hold_recovery auto\nset_db opt_post_route_fix_si_transitions true\nset_db opt_verbose true\nopt_design -post_route -setup -hold -expanded_views -timing_debug_report\nunflatten_ilm\n"@,
        r.checkpoint == true,
{
    Substep {
        checkpoint: true,
        command: String::from_str(
            "set_db opt_post_route_hold_recovery auto\nset_db opt_post_route_fix_si_transitions true\nset_db opt_verbose true\nopt_design -post_route -setup -hold -expanded_views -timing_debug_report\nunflatten_ilm\n",
        ),
        name: String::from_str("opt_design"),
    }
}

/// One power-strap layer: the via stack it spans, its clearance, whether
/// antennas are trimmed back, and the stripe instruction itself.
pub struct Layer {
    pub top: String,
    pub bot: String,
    pub spacing: rust_decimal::Decimal,
    pub trim_antenna: bool,
    pub add_stripes_command: String,
}

/// The strap-definition text of one layer.
pub open spec fn strap_block(l: Layer) -> Seq<char> {
    "#Power strap definition for layer "@ + l.top@
        + ":\nset_db add_stripes_stacked_via_top_layer "@ + l.top@
        + "\nset_db add_stripes_stacked_via_bottom_layer "@ + l.bot@ + "\n"@ + (if l.trim_antenna {
        "set_db add_stripes_trim_antenna_back_to_shape {stripe}\n"@
    } else {
        Seq::<char>::empty()
    }) + "set_db add_stripes_spacing_from_block "@ + decimal_str(l.spacing) + "\n"@
        + l.add_stripes_command@ + "\n"@
}

/// The strap-definition texts, in order.
pub open spec fn strap_blocks(ls: Seq<Layer>) -> Seq<char>
    decreases ls.len(),
{
    if ls.len() == 0 {
        Seq::<char>::empty()
    } else {
        strap_blocks(ls.drop_last()) + strap_block(ls.last())
    }
}

/// The power-strap substep: one definition block per layer, in order.  Its
/// result persists as a checkpoint.
pub fn power_straps(straps: Vec<Layer>) -> (r: Substep)
    ensures
        r.name@ == "power_straps"@,
        r.command@ == strap_blocks(straps@),
        r.checkpoint == true,
{
    let mut command = String::new();
    let n: usize = straps.len();
    let mut k: usize = 0;
    proof {
        assert(straps@.subrange(0, 0) =~= Seq::<Layer>::empty());
    }
    while k < n
        invariant
            n == straps@.len(),
            0 <= k <= n,
            command@ == strap_blocks(straps@.subrange(0, k as int)),
        decreases n - k,
    {
        command.append("#Power strap definition for layer ");
        command.append(straps[k].top.as_str());
        command.append(":\nset_db add_stripes_stacked_via_top_layer ");
        command.append(straps[k].top.as_str());
        command.append("\nset_db add_stripes_stacked_via_bottom_layer ");
        command.append(straps[k].bot.as_str());
        command.append("\n");
        if straps[k].trim_antenna {
            command.append("set_db add_stripes_trim_antenna_back_to_shape {stripe}\n");
        }
        command.append("set_db add_stripes_spacing_from_block ");
        let spacing = decimal_to_string(&straps[k].spacing);
        command.append(spacing.as_str());
        command.append("\n");
        command.append(straps[k].add_stripes_command.as_str());
        command.append("\n");
        proof {
            let upto = straps@.subrange(0, k as int + 1);
            assert(upto.drop_last() =~= straps@.subrange(0, k as int));
            assert(upto.last() == straps@[k as int]);
            assert(command@ =~= strap_blocks(upto));
        }
        k += 1;
    }
    proof {
        assert(straps@.subrange(0, n as int) =~= straps@);
    }
    Substep { checkpoint: true, command, name: String::from_str("power_straps") }
}

/// The substep reading everything a place-and-route run consumes: the
/// technology and library views, the submodules' abstract views, the MMMC
/// setup the embedder wrote under the working directory, the synthesized
/// netlist, and the submodules' interface models.
pub fn par_read_design_files(
    work_dir: &String,
    module: &String,
    netlist_path: &String,
    tlef: &String,
    pdk_lef: &String,
    submodules: &Vec<SubmoduleInfo>,
) -> (r: Substep)
    ensures
        r.name@ == "read_design_files"@,
        r.command@ == "read_physical -lef { "@ + tlef@ + " "@ + pdk_lef@ + sub_lefs(submodules@)
            + " }\nread_mmmc "@ + work_dir@ + "/mmmc.tcl\nread_netlist "@ + netlist_path@
            + " -top "@ + module@ + "\n"@ + ilm_lines(submodules@),
        r.checkpoint == false,
{
    let mut command = String::from_str("read_physical -lef { ");
    command.append(tlef.as_str());
    command.append(" ");
    command.append(pdk_lef.as_str());
    append_sub_lefs(&mut command, submodules);
    command.append(" }\nread_mmmc ");
    command.append(work_dir.as_str());
    command.append("/mmmc.tcl\nread_netlist ");
    command.append(netlist_path.as_str());
    command.append(" -top ");
    command.append(module.as_str());
    command.append("\n");
    append_ilm_lines(&mut command, submodules);
    proof {
        assert(command@ =~= "read_physical -lef { "@ + tlef@ + " "@ + pdk_lef@ + sub_lefs(
            submodules@,
        ) + " }\nread_mmmc "@ + work_dir@ + "/mmmc.tcl\nread_netlist "@ + netlist_path@ + " -top "@
            + module@ + "\n"@ + ilm_lines(submodules@));
    }
    Substep { checkpoint: false, command, name: String::from_str("read_design_files") }
}


/// The report substep of a layout run: flatten the interface models, write
/// the register listings, and unflatten again.  Its result persists as a
/// checkpoint.
pub fn write_regs() -> (r: Substep)
    ensures
        r.name@ == "write_regs"@,
        r.checkpoint == true,
        r.command@ == "flatten_ilm\n\n"@ + crate::cadence::find_regs_tcl() + "unflatten_ilm\n"@,
{
    let mut command = String::from_str("flatten_ilm\n\n");
    crate::cadence::append_find_regs_tcl(&mut command);
    command.append("unflatten_ilm\n");
    proof {
        assert(command@ =~= "flatten_ilm\n\n"@ + crate::cadence::find_regs_tcl()
            + "unflatten_ilm\n"@);
    }
    Substep { checkpoint: true, command, name: String::from_str("write_regs") }
}

} // verus!
