//! Shared multi-mode multi-corner (MMMC) analysis setup: the corner
//! descriptions and the generator of the `mmmc.tcl` text that the synthesis
//! and place-and-route nodes both read, plus the default clock and pin
//! constraints.

use vstd::prelude::*;

verus! {

/// A fixed-point decimal of the outside numerics crate; carried opaquely and
/// only ever rendered into script text.
#[verifier::external_type_specification]
#[verifier::external_body]
pub struct ExDecimal(rust_decimal::Decimal);

/// The text rust_decimal's formatting gives a decimal: a function of the
/// value (mantissa and scale) alone.
pub uninterp spec fn decimal_str(d: rust_decimal::Decimal) -> Seq<char>;

/// Relies on rust_decimal's Display implementation: the text it writes
/// depends on the decimal's value alone.
#[verifier::external_body]
pub fn decimal_to_string(d: &rust_decimal::Decimal) -> (r: String)
    ensures
        r@ == decimal_str(*d),
{
    d.to_string()
}

/// The default clock and pin constraints every stage reads.
pub open spec fn sdc_text() -> Seq<char> {
    "create_clock clk -name clk -period 2.0\nset_clock_uncertainty 0.01 [get_clocks clk]\nset_clock_groups -asynchronous  -group { clk }\nset_load 1.0 [all_outputs]\nset_input_delay -clock clk 0 [all_inputs]\nset_output_delay -clock clk 0 [all_outputs]"@
}

/// The clock and pin constraints written before synthesis and layout.
pub fn sdc() -> (r: String)
    ensures
        r@ == sdc_text(),
{
    String::from_str(
        "create_clock clk -name clk -period 2.0\nset_clock_uncertainty 0.01 [get_clocks clk]\nset_clock_groups -asynchronous  -group { clk }\nset_load 1.0 [all_outputs]\nset_input_delay -clock clk 0 [all_inputs]\nset_output_delay -clock clk 0 [all_outputs]",
    )
}

/// One analysis corner: its label, what it is used as (`setup`, `hold`,
/// `extra`), its timing libraries, and its temperature.
pub struct MmmcCorner {
    pub name: String,
    pub corner_type: String,
    pub libs: Vec<String>,
    pub temperature: rust_decimal::Decimal,
}

/// The parameters of the MMMC setup: the constraint files and the corners,
/// with the roles each corner plays.
pub struct MmmcConfig {
    pub sdc_files: Vec<String>,
    pub corners: Vec<MmmcCorner>,
    pub setup: Vec<MmmcCorner>,
    pub hold: Vec<MmmcCorner>,
    pub dynamic: MmmcCorner,
    pub leakage: MmmcCorner,
}

/// The corner's identifying prefix in every generated object name.
pub open spec fn corner_id(c: MmmcCorner) -> Seq<char> {
    c.name@ + "."@ + c.corner_type@
}

/// The items joined with single spaces.
pub open spec fn joined_spaced(items: Seq<String>) -> Seq<char>
    decreases items.len(),
{
    if items.len() == 0 {
        Seq::<char>::empty()
    } else if items.len() == 1 {
        items[0]@
    } else {
        joined_spaced(items.drop_last()) + " "@ + items.last()@
    }
}

/// The timing libraries of a corner, each quoted, space-separated.
pub open spec fn lib_list(libs: Seq<String>) -> Seq<char>
    decreases libs.len(),
{
    if libs.len() == 0 {
        Seq::<char>::empty()
    } else {
        lib_list(libs.drop_last()) + " \""@ + libs.last()@ + "\""@
    }
}

/// The five instructions defining one corner's library set, timing
/// condition, extraction corner, delay corner and analysis view.
pub open spec fn corner_block(c: MmmcCorner) -> Seq<char> {
    "create_library_set -name "@ + corner_id(c) + "_set -timing [list"@ + lib_list(c.libs@)
        + "]\ncreate_timing_condition -name "@ + corner_id(c) + "_cond -library_sets [list "@
        + corner_id(c) + "_set]\ncreate_rc_corner -name "@ + corner_id(c) + "_rc -temperature "@
        + decimal_str(c.temperature) + "\ncreate_delay_corner -name "@ + corner_id(c)
        + "_delay -timing_condition "@ + corner_id(c) + "_cond -rc_corner "@ + corner_id(c)
        + "_rc\ncreate_analysis_view -name "@ + corner_id(c) + "_view -delay_corner "@ + corner_id(
        c,
    ) + "_delay -constraint_mode my_constraint_mode\n"@
}

/// The corner-defining blocks, in order.
pub open spec fn corner_blocks(cs: Seq<MmmcCorner>) -> Seq<char>
    decreases cs.len(),
{
    if cs.len() == 0 {
        Seq::<char>::empty()
    } else {
        corner_blocks(cs.drop_last()) + corner_block(cs.last())
    }
}

/// The analysis-view references of a corner list, each preceded by a space.
pub open spec fn view_refs(cs: Seq<MmmcCorner>) -> Seq<char>
    decreases cs.len(),
{
    if cs.len() == 0 {
        Seq::<char>::empty()
    } else {
        view_refs(cs.drop_last()) + " "@ + corner_id(cs.last()) + "_view"@
    }
}

/// The whole MMMC setup text: the constraint mode over the given files, one
/// defining block per corner, and the view selection for setup, hold,
/// dynamic and leakage analysis.
pub open spec fn mmmc_text(config: MmmcConfig) -> Seq<char> {
    "create_constraint_mode -name my_constraint_mode -sdc_files [list "@ + joined_spaced(
        config.sdc_files@,
    ) + "]\n"@ + corner_blocks(config.corners@) + "set_analysis_view -setup {"@ + view_refs(
        config.setup@,
    ) + " } -hold {"@ + view_refs(config.hold@) + " } -dynamic "@ + corner_id(config.dynamic)
        + "_view -leakage "@ + corner_id(config.leakage) + "_view\n"@
}

/// The corner's label is among the defined corners.
pub open spec fn corner_defined(corners: Seq<MmmcCorner>, c: MmmcCorner) -> bool {
    exists|i: int| 0 <= i < corners.len() && corners[i].name@ == c.name@
}

/// Append `name.corner_type` of a corner.
fn append_corner_id(out: &mut String, c: &MmmcCorner)
    ensures
        final(out)@ == old(out)@ + corner_id(*c),
{
    out.append(c.name.as_str());
    out.append(".");
    out.append(c.corner_type.as_str());
    proof {
        assert(final(out)@ =~= old(out)@ + corner_id(*c));
    }
}

/// Append the view references of a corner list.
fn append_view_refs(out: &mut String, cs: &Vec<MmmcCorner>)
    ensures
        final(out)@ == old(out)@ + view_refs(cs@),
{
    let n: usize = cs.len();
    let mut k: usize = 0;
    proof {
        assert(cs@.subrange(0, 0) =~= Seq::<MmmcCorner>::empty());
    }
    while k < n
        invariant
            n == cs@.len(),
            0 <= k <= n,
            out@ == old(out)@ + view_refs(cs@.subrange(0, k as int)),
        decreases n - k,
    {
        out.append(" ");
        append_corner_id(out, &cs[k]);
        out.append("_view");
        proof {
            let upto = cs@.subrange(0, k as int + 1);
            assert(upto.drop_last() =~= cs@.subrange(0, k as int));
            assert(upto.last() == cs@[k as int]);
            assert(out@ =~= old(out)@ + view_refs(upto));
        }
        k += 1;
    }
    proof {
        assert(cs@.subrange(0, n as int) =~= cs@);
    }
}

/// Append the defining block of one corner.
fn append_corner_block(out: &mut String, corner: &MmmcCorner)
    ensures
        final(out)@ == old(out)@ + corner_block(*corner),
{
    out.append("create_library_set -name ");
    append_corner_id(out, corner);
    out.append("_set -timing [list");
    let ghost libs_base = out@;
    let ln: usize = corner.libs.len();
    let mut l: usize = 0;
    proof {
        assert(corner.libs@.subrange(0, 0) =~= Seq::<String>::empty());
    }
    while l < ln
        invariant
            ln == corner.libs@.len(),
            0 <= l <= ln,
            out@ == libs_base + lib_list(corner.libs@.subrange(0, l as int)),
        decreases ln - l,
    {
        out.append(" \"");
        out.append(corner.libs[l].as_str());
        out.append("\"");
        proof {
            let upto = corner.libs@.subrange(0, l as int + 1);
            assert(upto.drop_last() =~= corner.libs@.subrange(0, l as int));
            assert(upto.last() == corner.libs@[l as int]);
            assert(out@ =~= libs_base + lib_list(upto));
        }
        l += 1;
    }
    proof {
        assert(corner.libs@.subrange(0, ln as int) =~= corner.libs@);
    }
    out.append("]\ncreate_timing_condition -name ");
    append_corner_id(out, corner);
    out.append("_cond -library_sets [list ");
    append_corner_id(out, corner);
    out.append("_set]\ncreate_rc_corner -name ");
    append_corner_id(out, corner);
    out.append("_rc -temperature ");
    let temp = decimal_to_string(&corner.temperature);
    out.append(temp.as_str());
    out.append("\ncreate_delay_corner -name ");
    append_corner_id(out, corner);
    out.append("_delay -timing_condition ");
    append_corner_id(out, corner);
    out.append("_cond -rc_corner ");
    append_corner_id(out, corner);
    out.append("_rc\ncreate_analysis_view -name ");
    append_corner_id(out, corner);
    out.append("_view -delay_corner ");
    append_corner_id(out, corner);
    out.append("_delay -constraint_mode my_constraint_mode\n");
    proof {
        assert(final(out)@ =~= old(out)@ + corner_block(*corner));
    }
}

/// Generate the MMMC setup text.  Every corner used for setup, hold, dynamic
/// or leakage analysis must be among the defined corners.
#[verifier::rlimit(100)]
pub fn mmmc(config: MmmcConfig) -> (r: String)
    requires
        forall|i: int|
            0 <= i < config.setup@.len() ==> corner_defined(
                config.corners@,
                #[trigger] config.setup@[i],
            ),
        forall|i: int|
            0 <= i < config.hold@.len() ==> corner_defined(
                config.corners@,
                #[trigger] config.hold@[i],
            ),
        corner_defined(config.corners@, config.dynamic),
        corner_defined(config.corners@, config.leakage),
    ensures
        r@ == mmmc_text(config),
{
    let mut out = String::from_str(
        "create_constraint_mode -name my_constraint_mode -sdc_files [list ",
    );
    let fn_count: usize = config.sdc_files.len();
    let mut f: usize = 0;
    let ghost base = out@;
    proof {
        assert(config.sdc_files@.subrange(0, 0) =~= Seq::<String>::empty());
    }
    while f < fn_count
        invariant
            fn_count == config.sdc_files@.len(),
            0 <= f <= fn_count,
            out@ == base + joined_spaced(config.sdc_files@.subrange(0, f as int)),
        decreases fn_count - f,
    {
        if f > 0 {
            out.append(" ");
        }
        out.append(config.sdc_files[f].as_str());
        proof {
            let upto = config.sdc_files@.subrange(0, f as int + 1);
            assert(upto.drop_last() =~= config.sdc_files@.subrange(0, f as int));
            assert(upto.last() == config.sdc_files@[f as int]);
            if f == 0 {
                assert(upto.len() == 1);
            }
            assert(out@ =~= base + joined_spaced(upto));
        }
        f += 1;
    }
    out.append("]\n");
    proof {
        assert(config.sdc_files@.subrange(0, fn_count as int) =~= config.sdc_files@);
    }
    let ghost header = out@;

    let cn: usize = config.corners.len();
    let mut c: usize = 0;
    proof {
        assert(config.corners@.subrange(0, 0) =~= Seq::<MmmcCorner>::empty());
    }
    while c < cn
        invariant
            cn == config.corners@.len(),
            0 <= c <= cn,
            out@ == header + corner_blocks(config.corners@.subrange(0, c as int)),
        decreases cn - c,
    {
        append_corner_block(&mut out, &config.corners[c]);
        proof {
            let upto = config.corners@.subrange(0, c as int + 1);
            assert(upto.drop_last() =~= config.corners@.subrange(0, c as int));
            assert(upto.last() == config.corners@[c as int]);
            assert(out@ =~= header + corner_blocks(upto));
        }
        c += 1;
    }
    proof {
        assert(config.corners@.subrange(0, cn as int) =~= config.corners@);
    }

    out.append("set_analysis_view -setup {");
    append_view_refs(&mut out, &config.setup);
    out.append(" } -hold {");
    append_view_refs(&mut out, &config.hold);
    out.append(" } -dynamic ");
    append_corner_id(&mut out, &config.dynamic);
    out.append("_view -leakage ");
    append_corner_id(&mut out, &config.leakage);
    out.append("_view\n");
    proof {
        assert(out@ =~= mmmc_text(config));
    }
    out
}


/// The report instructions both stages emit: the sequential-cell and
/// register listings written as JSON for later analysis.
pub open spec fn find_regs_tcl() -> Seq<char> {
    "set write_cells_ir \"./find_regs_cells.json\"\nset write_cells_ir [open $write_cells_ir \"w\"]\nputs $write_cells_ir \"\\[\"\n\nset refs [get_db [get_db lib_cells -if .is_sequential==true] .base_name]\n\nset len [llength $refs]\n\nfor {set i 0} {$i < [llength $refs]} {incr i} {\n    if {$i == $len - 1} {\n        puts $write_cells_ir \"    \\\"[lindex $refs $i]\\\"\"\n    } else {\n        puts $write_cells_ir \"    \\\"[lindex $refs $i]\\\",\"\n    }\n}\n\nputs $write_cells_ir \"\\]\"\nclose $write_cells_ir\nset write_regs_ir \"./find_regs_paths.json\"\nset write_regs_ir [open $write_regs_ir \"w\"]\nputs $write_regs_ir \"\\[\"\n\nset regs [get_db [get_db [all_registers -edge_triggered -output_pins] -if .direction==out] .name]\n\nset len [llength $regs]\n\nfor {set i 0} {$i < [llength $regs]} {incr i} {\n    #regsub -all {/} [lindex $regs $i] . myreg\n    set myreg [lindex $regs $i]\n    if {$i == $len - 1} {\n        puts $write_regs_ir \"    \\\"$myreg\\\"\"\n    } else {\n        puts $write_regs_ir \"    \\\"$myreg\\\",\"\n    }\n}\n\nputs $write_regs_ir \"\\]\"\n\nclose $write_regs_ir\n"@
}

/// Append the report instructions (see [`find_regs_tcl`]).
pub fn append_find_regs_tcl(out: &mut String)
    ensures
        final(out)@ == old(out)@ + find_regs_tcl(),
{
    out.append(
        "set write_cells_ir \"./find_regs_cells.json\"\nset write_cells_ir [open $write_cells_ir \"w\"]\nputs $write_cells_ir \"\\[\"\n\nset refs [get_db [get_db lib_cells -if .is_sequential==true] .base_name]\n\nset len [llength $refs]\n\nfor {set i 0} {$i < [llength $refs]} {incr i} {\n    if {$i == $len - 1} {\n        puts $write_cells_ir \"    \\\"[lindex $refs $i]\\\"\"\n    } else {\n        puts $write_cells_ir \"    \\\"[lindex $refs $i]\\\",\"\n    }\n}\n\nputs $write_cells_ir \"\\]\"\nclose $write_cells_ir\nset write_regs_ir \"./find_regs_paths.json\"\nset write_regs_ir [open $write_regs_ir \"w\"]\nputs $write_regs_ir \"\\[\"\n\nset regs [get_db [get_db [all_registers -edge_triggered -output_pins] -if .direction==out] .name]\n\nset len [llength $regs]\n\nfor {set i 0} {$i < [llength $regs]} {incr i} {\n    #regsub -all {/} [lindex $regs $i] . myreg\n    set myreg [lindex $regs $i]\n    if {$i == $len - 1} {\n        puts $write_regs_ir \"    \\\"$myreg\\\"\"\n    } else {\n        puts $write_regs_ir \"    \\\"$myreg\\\",\"\n    }\n}\n\nputs $write_regs_ir \"\\]\"\n\nclose $write_regs_ir\n",
    );
}

} // verus!
