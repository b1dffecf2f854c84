//! The synthesis build node: owns the substep sequence of one synthesis run
//! and materializes it into the synthesis tool's script, resuming from a
//! checkpoint when one is set.  Writing the script to disk and invoking the
//! tool on it is the embedder's part.

use vstd::prelude::*;

use crate::sched::{copy_ids, Step, StepId};
use crate::substep::{
    append_script_body, find_substep, position_of, script_body, Checkpoint, SubmoduleInfo, Substep,
};
use crate::error::FlowError;

verus! {

/// The first line of every synthesis script.
pub open spec fn genus_prologue() -> Seq<char> {
    "set_db super_thread_debug_directory super_thread_debug\n"@
}

/// The instruction persisting the tool state to a file.
pub open spec fn genus_write_prefix() -> Seq<char> {
    "write_db -to_file "@
}

/// A synthesis run of one module: its working directory, substeps, pin flag,
/// optional starting checkpoint, dependencies, and — once known — the path
/// of the netlist it produces.
pub struct GenusStep {
    pub work_dir: String,
    pub module: String,
    pub substeps: Vec<Substep>,
    pub pinned: bool,
    pub start_checkpoint: Option<Checkpoint>,
    pub dependencies: Vec<StepId>,
    pub netlist: Option<String>,
}

impl GenusStep {
    /// A fresh synthesis node: no starting checkpoint, no netlist yet.
    pub fn new(
        work_dir: String,
        module: String,
        steps: Vec<Substep>,
        pinned: bool,
        deps: Vec<StepId>,
    ) -> (r: GenusStep)
        ensures
            r.work_dir == work_dir,
            r.module == module,
            r.substeps == steps,
            r.pinned == pinned,
            r.start_checkpoint is None,
            r.dependencies == deps,
            r.netlist is None,
    {
        GenusStep {
            work_dir,
            module,
            substeps: steps,
            pinned,
            start_checkpoint: None,
            dependencies: deps,
            netlist: None,
        }
    }

    /// The script this node materializes: the prologue, the restore
    /// instruction when a starting checkpoint is set, the substeps from the
    /// checkpointed one on (all of them otherwise), and `quit`.  `None` when
    /// the starting checkpoint names no substep.
    pub open spec fn spec_script(&self) -> Option<Seq<char>> {
        match self.start_checkpoint {
            None => Some(
                genus_prologue() + script_body(
                    self.substeps@,
                    self.work_dir@,
                    genus_write_prefix(),
                ) + "quit\n"@,
            ),
            Some(cp) => match find_substep(self.substeps@, cp.name@) {
                None => None,
                Some(i) => Some(
                    genus_prologue() + "read_db "@ + cp.path@ + "\n"@ + script_body(
                        self.substeps@.skip(i),
                        self.work_dir@,
                        genus_write_prefix(),
                    ) + "quit\n"@,
                ),
            },
        }
    }

    /// Materialize the script.  When a starting checkpoint is set, the
    /// substeps before the one it names are skipped entirely, and a restore
    /// instruction for the checkpoint's path comes first; a checkpoint
    /// naming no substep is the error, and the only one.
    pub fn script(&self) -> (r: Result<String, FlowError>)
        ensures
            r matches Ok(text) ==> Some(text@) == self.spec_script(),
            r is Err <==> self.spec_script() is None,
            r matches Err(e) ==> (e matches FlowError::CheckpointNotFound { name }
                && self.start_checkpoint matches Some(cp) && name@ == cp.name@),
    {
        let mut out = String::new();
        out.append("set_db super_thread_debug_directory super_thread_debug\n");
        let from: usize = match &self.start_checkpoint {
            None => 0,
            Some(cp) => match position_of(&self.substeps, &cp.name) {
                Some(i) => {
                    out.append("read_db ");
                    out.append(cp.path.as_str());
                    out.append("\n");
                    i
                },
                None => {
                    return Err(FlowError::CheckpointNotFound { name: cp.name.clone() });
                },
            },
        };
        append_script_body(&mut out, &self.substeps, from, &self.work_dir, "write_db -to_file ");
        out.append("quit\n");
        proof {
            match &self.start_checkpoint {
                None => {
                    assert(self.substeps@.skip(0) =~= self.substeps@);
                    assert(out@ =~= genus_prologue() + script_body(
                        self.substeps@,
                        self.work_dir@,
                        genus_write_prefix(),
                    ) + "quit\n"@);
                },
                Some(cp) => {
                    let i = find_substep(self.substeps@, cp.name@).unwrap();
                    assert(out@ =~= genus_prologue() + "read_db "@ + cp.path@ + "\n"@
                        + script_body(
                        self.substeps@.skip(i),
                        self.work_dir@,
                        genus_write_prefix(),
                    ) + "quit\n"@);
                },
            }
        }
        Ok(out)
    }

    /// Insert a substep at the given position of the sequence, before the
    /// graph is scheduled.
    pub fn add_hook(&mut self, name: &str, tcl: &str, index: usize, checkpointed: bool)
        requires
            index <= old(self).substeps@.len(),
        ensures
            final(self).substeps@.len() == old(self).substeps@.len() + 1,
            final(self).substeps@[index as int].name@ == name@,
            final(self).substeps@[index as int].command@ == tcl@,
            final(self).substeps@[index as int].checkpoint == checkpointed,
            forall|j: int| 0 <= j < index ==> final(self).substeps@[j] == old(self).substeps@[j],
            forall|j: int|
                index < j < final(self).substeps@.len() ==> final(self).substeps@[j] == old(
                    self,
                ).substeps@[j - 1],
            final(self).work_dir == old(self).work_dir,
            final(self).module == old(self).module,
            final(self).pinned == old(self).pinned,
            final(self).start_checkpoint == old(self).start_checkpoint,
            final(self).dependencies == old(self).dependencies,
            final(self).netlist == old(self).netlist,
    {
        self.substeps.insert(
            index,
            Substep {
                name: String::from_str(name),
                command: String::from_str(tcl),
                checkpoint: checkpointed,
            },
        );
    }

    /// The netlist this run produced.
    pub fn netlist(&self) -> (r: String)
        requires
            self.netlist is Some,
        ensures
            r == self.netlist.unwrap(),
    {
        self.netlist.as_ref().unwrap().clone()
    }

    /// Resume this node from a named checkpoint: the substeps before the
    /// named one will be skipped and the persisted state at `checkpoint_path`
    /// restored first.
    pub fn add_checkpoint(&mut self, name: String, checkpoint_path: String)
        ensures
            final(self).start_checkpoint matches Some(cp) && cp.name == name && cp.path
                == checkpoint_path,
            final(self).work_dir == old(self).work_dir,
            final(self).module == old(self).module,
            final(self).substeps == old(self).substeps,
            final(self).pinned == old(self).pinned,
            final(self).dependencies == old(self).dependencies,
            final(self).netlist == old(self).netlist,
    {
        self.start_checkpoint = Some(Checkpoint { name, path: checkpoint_path });
    }
}

impl Step for GenusStep {
    open spec fn spec_deps(&self) -> Seq<StepId> {
        self.dependencies@
    }

    open spec fn spec_pinned(&self) -> bool {
        self.pinned
    }

    fn deps(&self) -> (r: Vec<StepId>) {
        copy_ids(&self.dependencies)
    }

    fn pinned(&self) -> (r: bool) {
        self.pinned
    }
}

/// The default synthesis options, first substep of every synthesis run.
pub open spec fn set_default_options_command() -> Seq<char> {
    "\n            set_db hdl_error_on_blackbox true\n            set_db max_cpus_per_server 12\n            set_multi_cpu_usage -local_cpu 12\n            set_db super_thread_debug_jobs true\n            set_db super_thread_debug_directory super_thread_debug\n            set_db lp_clock_gating_infer_enable  true\n            set_db lp_clock_gating_prefix  {CLKGATE}\n            set_db lp_insert_clock_gating  true\n            set_db lp_clock_gating_register_aware true\n            set_db root: .auto_ungroup none\n"@
}

/// The substep setting the default synthesis options.
pub fn set_default_options() -> (r: Substep)
    ensures
        r.name@ == "set_default_options"@,
        r.command@ == set_default_options_command(),
        r.checkpoint == false,
{
    Substep {
        checkpoint: false,
        name: String::from_str("set_default_options"),
        command: String::from_str(
            "\n            set_db hdl_error_on_blackbox true\n            set_db max_cpus_per_server 12\n            set_multi_cpu_usage -local_cpu 12\n            set_db super_thread_debug_jobs true\n            set_db super_thread_debug_directory super_thread_debug\n            set_db lp_clock_gating_infer_enable  true\n            set_db lp_clock_gating_prefix  {CLKGATE}\n            set_db lp_insert_clock_gating  true\n            set_db lp_clock_gating_register_aware true\n            set_db root: .auto_ungroup none\n",
        ),
    }
}

/// The substep keeping the named library cell available to the mapper.
pub fn dont_avoid_lib_cells(base_name: &str) -> (r: Substep)
    ensures
        r.name@ == "dont_avoid_lib_cells_"@ + base_name@,
        r.command@ == "set_db [get_db lib_cells -if {.base_name == "@ + base_name@
            + "}] .avoid false"@,
        r.checkpoint == false,
{
    let mut name = String::from_str("dont_avoid_lib_cells_");
    name.append(base_name);
    let mut command = String::from_str("set_db [get_db lib_cells -if {.base_name == ");
    command.append(base_name);
    command.append("}] .avoid false");
    Substep { checkpoint: false, name, command }
}

/// The substep elaborating the module.
pub fn elaborate(module: &String) -> (r: Substep)
    ensures
        r.name@ == "elaborate"@,
        r.command@ == "elaborate "@ + module@,
        r.checkpoint == false,
{
    let mut command = String::from_str("elaborate ");
    command.append(module.as_str());
    Substep { checkpoint: false, command, name: String::from_str("elaborate") }
}

/// The substep initializing the synthesis run for the top module.
pub fn syn_init_design(module: &String) -> (r: Substep)
    ensures
        r.name@ == "init_design"@,
        r.command@ == "init_design -top "@ + module@,
        r.checkpoint == false,
{
    let mut command = String::from_str("init_design -top ");
    command.append(module.as_str());
    Substep { checkpoint: false, command, name: String::from_str("init_design") }
}

/// The generic synthesis substep; its result persists as a checkpoint.
pub fn syn_generic() -> (r: Substep)
    ensures
        r.name@ == "syn_generic"@,
        r.command@ == "syn_generic"@,
        r.checkpoint == true,
{
    Substep {
        checkpoint: true,
        command: String::from_str("syn_generic"),
        name: String::from_str("syn_generic"),
    }
}

/// The technology-mapping substep; its result persists as a checkpoint.
pub fn syn_map() -> (r: Substep)
    ensures
        r.name@ == "syn_map"@,
        r.command@ == "syn_map"@,
        r.checkpoint == true,
{
    Substep {
        checkpoint: true,
        command: String::from_str("syn_map"),
        name: String::from_str("syn_map"),
    }
}

/// The power-intent description (a CPF text) of a module, at the default
/// core voltage.
pub open spec fn power_spec_tail() -> Seq<char> {
    "\ncreate_power_nets -nets VDD -voltage 1.8\ncreate_power_nets -nets VPWR -voltage 1.8\ncreate_power_nets -nets VPB -voltage 1.8\ncreate_power_nets -nets vdd -voltage 1.8\ncreate_ground_nets -nets { VSS VGND VNB vss }\ncreate_power_domain -name AO -default\nupdate_power_domain -name AO -primary_power_net VDD -primary_ground_net VSS\ncreate_global_connection -domain AO -net VDD -pins [list VDD]\ncreate_global_connection -domain AO -net VPWR -pins [list VPWR]\ncreate_global_connection -domain AO -net VPB -pins [list VPB]\ncreate_global_connection -domain AO -net vdd -pins [list vdd]\ncreate_global_connection -domain AO -net VSS -pins [list VSS]\ncreate_global_connection -domain AO -net VGND -pins [list VGND]\ncreate_global_connection -domain AO -net VNB -pins [list VNB]\ncreate_nominal_condition -name nominal -voltage 1.8\ncreate_power_mode -name aon -default -domain_conditions {AO@nominal}\nend_design\n"@
}

/// The power-intent file contents for a module.  The embedder writes this
/// text to `power_spec.cpf` under the node's working directory before the
/// run.
pub fn power_spec_text(module: &str) -> (r: String)
    ensures
        r@ == "set_cpf_version 1.0e\nset_hierarchy_separator /\nset_design "@ + module@
            + power_spec_tail(),
{
    let mut out = String::from_str("set_cpf_version 1.0e\nset_hierarchy_separator /\nset_design ");
    out.append(module);
    out.append(
        "\ncreate_power_nets -nets VDD -voltage 1.8\ncreate_power_nets -nets VPWR -voltage 1.8\ncreate_power_nets -nets VPB -voltage 1.8\ncreate_power_nets -nets vdd -voltage 1.8\ncreate_ground_nets -nets { VSS VGND VNB vss }\ncreate_power_domain -name AO -default\nupdate_power_domain -name AO -primary_power_net VDD -primary_ground_net VSS\ncreate_global_connection -domain AO -net VDD -pins [list VDD]\ncreate_global_connection -domain AO -net VPWR -pins [list VPWR]\ncreate_global_connection -domain AO -net VPB -pins [list VPB]\ncreate_global_connection -domain AO -net vdd -pins [list vdd]\ncreate_global_connection -domain AO -net VSS -pins [list VSS]\ncreate_global_connection -domain AO -net VGND -pins [list VGND]\ncreate_global_connection -domain AO -net VNB -pins [list VNB]\ncreate_nominal_condition -name nominal -voltage 1.8\ncreate_power_mode -name aon -default -domain_conditions {AO@nominal}\nend_design\n",
    );
    proof {
        assert(out@ =~= "set_cpf_version 1.0e\nset_hierarchy_separator /\nset_design "@ + module@
            + power_spec_tail());
    }
    out
}

/// The substep applying the module's power intent, read from the
/// `power_spec.cpf` the embedder wrote (see [`power_spec_text`]).  Its
/// result persists as a checkpoint.
pub fn power_intent(work_dir: &String) -> (r: Substep)
    ensures
        r.name@ == "power_intent"@,
        r.command@ == "read_power_intent -cpf "@ + work_dir@
            + "/power_spec.cpf\napply_power_intent -summary\ncommit_power_intent\n"@,
        r.checkpoint == true,
{
    let mut command = String::from_str("read_power_intent -cpf ");
    command.append(work_dir.as_str());
    command.append("/power_spec.cpf\napply_power_intent -summary\ncommit_power_intent\n");
    Substep { checkpoint: true, command, name: String::from_str("power_intent") }
}

/// The substep mapping constant drivers onto tie cells; its result persists
/// as a checkpoint.
pub fn add_tieoffs() -> (r: Substep)
    ensures
        r.name@ == "add_tieoffs"@,
        r.command@ == "set_db message:WSDF-201 .max_print 20\nset_db use_tiehilo_for_const duplicate\nset ACTIVE_SET [string map { .setup_view .setup_set .hold_view .hold_set .extra_view .extra_set } [get_db [get_analysis_views] .name]]\nset HI_TIEOFF [get_db base_cell:TIEHI .lib_cells -if { .library.library_set.name == $ACTIVE_SET }]\nset LO_TIEOFF [get_db base_cell:TIELO .lib_cells -if { .library.library_set.name == $ACTIVE_SET }]\nadd_tieoffs -high $HI_TIEOFF -low $LO_TIEOFF -max_fanout 1 -verbose\n"@,
        r.checkpoint == true,
{
    Substep {
        checkpoint: true,
        command: String::from_str(
            "set_db message:WSDF-201 .max_print 20\nset_db use_tiehilo_for_const duplicate\nset ACTIVE_SET [string map { .setup_view .setup_set .hold_view .hold_set .extra_view .extra_set } [get_db [get_analysis_views] .name]]\nset HI_TIEOFF [get_db base_cell:TIEHI .lib_cells -if { .library.library_set.name == $ACTIVE_SET }]\nset LO_TIEOFF [get_db base_cell:TIELO .lib_cells -if { .library.library_set.name == $ACTIVE_SET }]\nadd_tieoffs -high $HI_TIEOFF -low $LO_TIEOFF -max_fanout 1 -verbose\n",
        ),
        name: String::from_str("add_tieoffs"),
    }
}

/// The abstract-view paths of the submodules, each preceded by a space.
pub open spec fn sub_lefs(subs: Seq<SubmoduleInfo>) -> Seq<char>
    decreases subs.len(),
{
    if subs.len() == 0 {
        Seq::<char>::empty()
    } else {
        sub_lefs(subs.drop_last()) + " "@ + subs.last().lef@
    }
}

/// The interface-model read instructions of the submodules, in order.
pub open spec fn ilm_lines(subs: Seq<SubmoduleInfo>) -> Seq<char>
    decreases subs.len(),
{
    if subs.len() == 0 {
        Seq::<char>::empty()
    } else {
        ilm_lines(subs.drop_last()) + "read_ilm -cell "@ + subs.last().name@ + " -directory "@
            + subs.last().ilm@ + "\n"@
    }
}

/// Append the abstract-view paths of the submodules.
pub fn append_sub_lefs(out: &mut String, subs: &Vec<SubmoduleInfo>)
    ensures
        final(out)@ == old(out)@ + sub_lefs(subs@),
{
    let n: usize = subs.len();
    let mut k: usize = 0;
    proof {
        assert(subs@.subrange(0, 0) =~= Seq::<SubmoduleInfo>::empty());
    }
    while k < n
        invariant
            n == subs@.len(),
            0 <= k <= n,
            out@ == old(out)@ + sub_lefs(subs@.subrange(0, k as int)),
        decreases n - k,
    {
        out.append(" ");
        out.append(subs[k].lef.as_str());
        proof {
            let upto = subs@.subrange(0, k as int + 1);
            assert(upto.drop_last() =~= subs@.subrange(0, k as int));
            assert(upto.last() == subs@[k as int]);
            assert(out@ =~= old(out)@ + sub_lefs(upto));
        }
        k += 1;
    }
    proof {
        assert(subs@.subrange(0, n as int) =~= subs@);
    }
}

/// Append the interface-model read instructions of the submodules.
pub fn append_ilm_lines(out: &mut String, subs: &Vec<SubmoduleInfo>)
    ensures
        final(out)@ == old(out)@ + ilm_lines(subs@),
{
    let n: usize = subs.len();
    let mut k: usize = 0;
    proof {
        assert(subs@.subrange(0, 0) =~= Seq::<SubmoduleInfo>::empty());
    }
    while k < n
        invariant
            n == subs@.len(),
            0 <= k <= n,
            out@ == old(out)@ + ilm_lines(subs@.subrange(0, k as int)),
        decreases n - k,
    {
        out.append("read_ilm -cell ");
        out.append(subs[k].name.as_str());
        out.append(" -directory ");
        out.append(subs[k].ilm.as_str());
        out.append("\n");
        proof {
            let upto = subs@.subrange(0, k as int + 1);
            assert(upto.drop_last() =~= subs@.subrange(0, k as int));
            assert(upto.last() == subs@[k as int]);
            assert(out@ =~= old(out)@ + ilm_lines(upto));
        }
        k += 1;
    }
    proof {
        assert(subs@.subrange(0, n as int) =~= subs@);
    }
}

/// The substep reading everything a synthesis run consumes: the MMMC setup
/// the embedder wrote under the working directory, the technology and
/// library views, the submodules' abstract views and interface models, and
/// the module's source.
pub fn syn_read_design_files(
    work_dir: &String,
    verilog_path: &String,
    tlef: &String,
    pdk_lef: &String,
    submodules: &Vec<SubmoduleInfo>,
) -> (r: Substep)
    ensures
        r.name@ == "read_design_files"@,
        r.command@ == "read_mmmc "@ + work_dir@ + "/mmmc.tcl\nread_physical -lef { "@ + tlef@
            + " "@ + pdk_lef@ + sub_lefs(submodules@) + " }\nread_hdl -sv "@ + verilog_path@ + "\n"@
            + ilm_lines(submodules@),
        r.checkpoint == false,
{
    let mut command = String::from_str("read_mmmc ");
    command.append(work_dir.as_str());
    command.append("/mmmc.tcl\nread_physical -lef { ");
    command.append(tlef.as_str());
    command.append(" ");
    command.append(pdk_lef.as_str());
    append_sub_lefs(&mut command, submodules);
    command.append(" }\nread_hdl -sv ");
    command.append(verilog_path.as_str());
    command.append("\n");
    append_ilm_lines(&mut command, submodules);
    proof {
        assert(command@ =~= "read_mmmc "@ + work_dir@ + "/mmmc.tcl\nread_physical -lef { "@ + tlef@
            + " "@ + pdk_lef@ + sub_lefs(submodules@) + " }\nread_hdl -sv "@ + verilog_path@
            + "\n"@ + ilm_lines(submodules@));
    }
    Substep { checkpoint: false, command, name: String::from_str("read_design_files") }
}


/// The closing substep of a synthesis run: write the reports, the register
/// listings, and the mapped netlist, constraints and timing models of the
/// module.  Its result persists as a checkpoint.
pub fn syn_write_design(module: &str) -> (r: Substep)
    ensures
        r.name@ == "write_design"@,
        r.checkpoint == true,
        r.command@ == crate::cadence::find_regs_tcl() + "write_reports -directory reports -tag final\nreport_timing -unconstrained -max_paths 50 > reports/final_unconstrained.rpt\n\nwrite_hdl > "@ + module@
            + ".mapped.v\nwrite_template -full -outfile "@ + module@
            + ".mapped.scr\nwrite_sdc -view ss_100C_1v60.setup_view > "@ + module@
            + ".mapped.sdc\nwrite_sdf > "@ + module@ + ".mapped.sdf\nwrite_design -gzip_files "@
            + module@ + "\n"@,
{
    let mut command = String::new();
    crate::cadence::append_find_regs_tcl(&mut command);
    command.append(
        "write_reports -directory reports -tag final\nreport_timing -unconstrained -max_paths 50 > reports/final_unconstrained.rpt\n\nwrite_hdl > ",
    );
    command.append(module);
    command.append(".mapped.v\nwrite_template -full -outfile ");
    command.append(module);
    command.append(".mapped.scr\nwrite_sdc -view ss_100C_1v60.setup_view > ");
    command.append(module);
    command.append(".mapped.sdc\nwrite_sdf > ");
    command.append(module);
    command.append(".mapped.sdf\nwrite_design -gzip_files ");
    command.append(module);
    command.append("\n");
    proof {
        assert(command@ =~= crate::cadence::find_regs_tcl() + "write_reports -directory reports -tag final\nreport_timing -unconstrained -max_paths 50 > reports/final_unconstrained.rpt\n\nwrite_hdl > "@ + module@
            + ".mapped.v\nwrite_template -full -outfile "@ + module@
            + ".mapped.scr\nwrite_sdc -view ss_100C_1v60.setup_view > "@ + module@
            + ".mapped.sdc\nwrite_sdf > "@ + module@ + ".mapped.sdf\nwrite_design -gzip_files "@
            + module@ + "\n"@);
    }
    Substep { checkpoint: true, command, name: String::from_str("write_design") }
}

} // verus!
