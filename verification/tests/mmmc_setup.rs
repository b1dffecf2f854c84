use rust_decimal::Decimal;

use rivet::cadence::{decimal_to_string, mmmc, sdc, MmmcConfig, MmmcCorner};
use rivet::text::u64_to_string;

fn corner(name: &str, corner_type: &str, lib: &str, temperature: Decimal) -> MmmcCorner {
    MmmcCorner {
        name: name.to_string(),
        corner_type: corner_type.to_string(),
        libs: vec![lib.to_string()],
        temperature,
    }
}

#[test]
fn sdc_holds_the_default_constraints() {
    let text = sdc();
    assert_eq!(
        text,
        "create_clock clk -name clk -period 2.0\n\
         set_clock_uncertainty 0.01 [get_clocks clk]\n\
         set_clock_groups -asynchronous  -group { clk }\n\
         set_load 1.0 [all_outputs]\n\
         set_input_delay -clock clk 0 [all_inputs]\n\
         set_output_delay -clock clk 0 [all_outputs]"
    );
}

#[test]
fn decimal_renders_by_value() {
    assert_eq!(decimal_to_string(&Decimal::new(100, 0)), "100");
    assert_eq!(decimal_to_string(&Decimal::new(-400, 1)), "-40.0");
    assert_eq!(decimal_to_string(&Decimal::new(25, 0)), "25");
}

#[test]
fn number_rendering_is_decimal() {
    assert_eq!(u64_to_string(0), "0");
    assert_eq!(u64_to_string(130), "130");
    assert_eq!(u64_to_string(9876543210), "9876543210");
}

#[test]
fn mmmc_defines_each_corner_once() {
    let ss = corner("ss_100C_1v60", "setup", "lib/ss.lib", Decimal::new(100, 0));
    let ff = corner("ff_n40C_1v95", "hold", "lib/ff.lib", Decimal::new(-400, 1));
    let tt = corner("tt_025C_1v80", "extra", "lib/tt.lib", Decimal::new(25, 0));
    let config = MmmcConfig {
        sdc_files: vec!["syn/clock_pin_constraints.sdc".to_string()],
        corners: vec![clone_corner(&ss), clone_corner(&ff), clone_corner(&tt)],
        setup: vec![ss],
        hold: vec![ff, clone_corner(&tt)],
        dynamic: clone_corner(&tt),
        leakage: tt,
    };
    let text = mmmc(config);
    assert!(text.starts_with(
        "create_constraint_mode -name my_constraint_mode -sdc_files [list syn/clock_pin_constraints.sdc]\n"
    ));
    assert!(text.contains(
        "create_library_set -name ss_100C_1v60.setup_set -timing [list \"lib/ss.lib\"]\n"
    ));
    assert!(text.contains(
        "create_rc_corner -name ss_100C_1v60.setup_rc -temperature 100\n"
    ));
    assert!(text.contains(
        "create_rc_corner -name ff_n40C_1v95.hold_rc -temperature -40.0\n"
    ));
    assert!(text.contains(
        "create_delay_corner -name tt_025C_1v80.extra_delay -timing_condition tt_025C_1v80.extra_cond -rc_corner tt_025C_1v80.extra_rc\n"
    ));
    assert!(text.contains(
        "create_analysis_view -name ss_100C_1v60.setup_view -delay_corner ss_100C_1v60.setup_delay -constraint_mode my_constraint_mode\n"
    ));
    assert!(text.ends_with(
        "set_analysis_view -setup { ss_100C_1v60.setup_view } \
         -hold { ff_n40C_1v95.hold_view tt_025C_1v80.extra_view } \
         -dynamic tt_025C_1v80.extra_view -leakage tt_025C_1v80.extra_view\n"
    ));
}

#[test]
fn mmmc_single_corner_exact_text() {
    let only = corner("tt", "extra", "tt.lib", Decimal::new(25, 0));
    let config = MmmcConfig {
        sdc_files: vec!["a.sdc".to_string(), "b.sdc".to_string()],
        corners: vec![clone_corner(&only)],
        setup: vec![clone_corner(&only)],
        hold: vec![clone_corner(&only)],
        dynamic: clone_corner(&only),
        leakage: only,
    };
    let text = mmmc(config);
    assert_eq!(
        text,
        "create_constraint_mode -name my_constraint_mode -sdc_files [list a.sdc b.sdc]\n\
         create_library_set -name tt.extra_set -timing [list \"tt.lib\"]\n\
         create_timing_condition -name tt.extra_cond -library_sets [list tt.extra_set]\n\
         create_rc_corner -name tt.extra_rc -temperature 25\n\
         create_delay_corner -name tt.extra_delay -timing_condition tt.extra_cond -rc_corner tt.extra_rc\n\
         create_analysis_view -name tt.extra_view -delay_corner tt.extra_delay -constraint_mode my_constraint_mode\n\
         set_analysis_view -setup { tt.extra_view } -hold { tt.extra_view } \
         -dynamic tt.extra_view -leakage tt.extra_view\n"
    );
}

fn clone_corner(c: &MmmcCorner) -> MmmcCorner {
    MmmcCorner {
        name: c.name.clone(),
        corner_type: c.corner_type.clone(),
        libs: c.libs.clone(),
        temperature: c.temperature,
    }
}
