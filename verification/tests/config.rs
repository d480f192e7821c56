use tzmcfi_tools::benchmark::Benchmark;
use tzmcfi_tools::config::{select_build_opts, BuildMode, BuildOpt, FeatureUse};

fn bare(mode: BuildMode) -> BuildOpt {
    BuildOpt {
        mode,
        ctx: false,
        ses: false,
        ss: false,
        aborting_ss: false,
        icall: false,
        accel_raise_pri: false,
        unnest: false,
        rom_offset: 0,
    }
}

fn full() -> BuildOpt {
    BuildOpt {
        mode: BuildMode::ReleaseFast,
        ctx: true,
        ses: true,
        ss: true,
        aborting_ss: true,
        icall: false,
        accel_raise_pri: false,
        unnest: false,
        rom_offset: 0,
    }
}

fn everything() -> FeatureUse {
    FeatureUse {
        shadow_exception_stacks: true,
        shadow_stacks: true,
        context_management: true,
        accel_raise_pri: true,
        icall_sanitizer: true,
    }
}

#[test]
fn bare_configuration_is_valid() {
    assert_eq!(bare(BuildMode::ReleaseFast).validate(), Ok(()));
    assert_eq!(bare(BuildMode::ReleaseSmall).validate(), Ok(()));
    assert_eq!(full().validate(), Ok(()));
}

#[test]
fn validate_names_the_first_broken_dependency() {
    let mut o = bare(BuildMode::ReleaseFast);
    o.ss = true;
    assert_eq!(o.validate(), Err("cfi-ss requires cfi-ctx"));
    let mut o = bare(BuildMode::ReleaseFast);
    o.ses = true;
    assert_eq!(o.validate(), Err("cfi-ses requires cfi-ctx"));
    let mut o = bare(BuildMode::ReleaseFast);
    o.ctx = true;
    o.ss = true;
    assert_eq!(o.validate(), Err("cfi-ss requires cfi-ses"));
    let mut o = bare(BuildMode::ReleaseFast);
    o.aborting_ss = true;
    assert_eq!(o.validate(), Err("aborting-ss requires cfi-ss"));
    let mut o = bare(BuildMode::ReleaseFast);
    o.accel_raise_pri = true;
    assert_eq!(o.validate(), Err("-Daccel-raise-pri requires -Dcfi-ctx"));
    let mut o = bare(BuildMode::ReleaseFast);
    o.unnest = true;
    assert_eq!(o.validate(), Err("-Dcfi-unnest requires -Dcfi-ses"));
    // Several broken at once: the first in the order of the checks is named.
    let mut o = bare(BuildMode::ReleaseFast);
    o.ss = true;
    o.unnest = true;
    o.accel_raise_pri = true;
    assert_eq!(o.validate(), Err("cfi-ss requires cfi-ctx"));
}

#[test]
fn all_valid_values_counts() {
    let all = BuildOpt::all_valid_values(false);
    // mode x icall x {no ctx; ctx x ape x (no ses; ses x unnest x (no ss; ss x aborting))}
    assert_eq!(all.len(), 2 * 2 * (1 + 2 * (1 + 2 * (1 + 2))));
    assert_eq!(all.len(), 60);
    assert_eq!(BuildOpt::all_valid_values(true).len(), 240);
    assert_eq!(select_build_opts(false, &everything()), all);
}

#[test]
fn every_enumerated_value_is_valid() {
    for vary in [false, true] {
        for o in BuildOpt::all_valid_values(vary) {
            assert_eq!(o.validate(), Ok(()));
            assert!(!o.ss || o.ctx);
            assert!(!o.ses || o.ctx);
            assert!(!o.ss || o.ses);
            assert!(!o.aborting_ss || o.ss);
            assert!(!o.accel_raise_pri || o.ctx);
            assert!(!o.unnest || o.ses);
        }
    }
}

#[test]
fn every_valid_combination_is_enumerated_once() {
    let all = BuildOpt::all_valid_values(true);
    let mut count = 0;
    for mode in [BuildMode::ReleaseFast, BuildMode::ReleaseSmall] {
        for bits in 0u32..128 {
            for rom_offset in [0u8, 4, 8, 12] {
                let o = BuildOpt {
                    mode,
                    ctx: bits & 1 != 0,
                    ses: bits & 2 != 0,
                    ss: bits & 4 != 0,
                    aborting_ss: bits & 8 != 0,
                    icall: bits & 16 != 0,
                    accel_raise_pri: bits & 32 != 0,
                    unnest: bits & 64 != 0,
                    rom_offset,
                };
                let times = all.iter().filter(|x| **x == o).count();
                if o.validate().is_ok() {
                    assert_eq!(times, 1);
                    count += 1;
                } else {
                    assert_eq!(times, 0);
                }
            }
        }
    }
    assert_eq!(count, all.len());
}

#[test]
fn enumeration_is_deterministic() {
    assert_eq!(BuildOpt::all_valid_values(false), BuildOpt::all_valid_values(false));
    assert_eq!(BuildOpt::all_valid_values(true), BuildOpt::all_valid_values(true));
    let used = Benchmark::CoreMark.feature_use();
    assert_eq!(select_build_opts(true, &used), select_build_opts(true, &used));
}

#[test]
fn enumeration_order() {
    let all = BuildOpt::all_valid_values(false);
    assert_eq!(all[0], bare(BuildMode::ReleaseFast));
    // The innermost dimension that can vary without context management is
    // the indirect-call sanitizer.
    let mut second = bare(BuildMode::ReleaseFast);
    second.icall = true;
    assert_eq!(all[1], second);
    let mut third = bare(BuildMode::ReleaseFast);
    third.ctx = true;
    assert_eq!(all[2], third);
    let mut fourth = third;
    fourth.accel_raise_pri = true;
    assert_eq!(all[3], fourth);
    assert_eq!(all[30], bare(BuildMode::ReleaseSmall));
    for (i, o) in all.iter().enumerate() {
        assert_eq!(o.mode == BuildMode::ReleaseFast, i < 30);
    }
    let varied = BuildOpt::all_valid_values(true);
    let offsets: Vec<u8> = varied.iter().take(5).map(|o| o.rom_offset).collect();
    assert_eq!(offsets, vec![0, 4, 8, 12, 0]);
    assert_eq!(varied[4], second);
}

#[test]
fn canonical_ids() {
    assert_eq!(bare(BuildMode::ReleaseFast).to_string(), "ReleaseFast");
    assert_eq!(bare(BuildMode::ReleaseSmall).to_string(), "ReleaseSmall");
    assert_eq!(full().to_string(), "ReleaseFast+ctx+ses+ss(aborting)");
    let mut o = full();
    o.aborting_ss = false;
    o.unnest = true;
    o.icall = true;
    o.accel_raise_pri = true;
    o.rom_offset = 12;
    assert_eq!(o.to_string(), "ReleaseFast+ctx+ses(unnest)+ss(non-aborting)+icall+ape+off(12)");
    let mut o = bare(BuildMode::ReleaseSmall);
    o.rom_offset = 4;
    assert_eq!(o.to_string(), "ReleaseSmall+off(4)");
    o.rom_offset = 255;
    assert_eq!(o.to_string(), "ReleaseSmall+off(255)");
    o.rom_offset = 100;
    assert_eq!(o.to_string(), "ReleaseSmall+off(100)");
}

#[test]
fn canonical_ids_are_distinct() {
    let all = BuildOpt::all_valid_values(true);
    let mut ids: Vec<String> = all.iter().map(|o| o.to_string()).collect();
    ids.sort();
    ids.dedup();
    assert_eq!(ids.len(), all.len());
}

#[test]
fn canonical_ids_can_serve_as_file_names() {
    for o in BuildOpt::all_valid_values(true) {
        let id = o.to_string();
        assert!(!id.is_empty());
        assert!(id
            .chars()
            .all(|c| c.is_ascii_alphanumeric() || c == '+' || c == '-' || c == '(' || c == ')'));
    }
}

#[test]
fn build_arguments() {
    let mut args = vec!["build".to_string()];
    bare(BuildMode::ReleaseFast).append_zig_build_opts_to(&mut args);
    assert_eq!(args, vec!["build", "-Drelease-fast", "-Dcfi=false", "-Daccel-raise-pri=false"]);

    let mut args = Vec::new();
    let mut o = full();
    o.unnest = true;
    o.icall = true;
    o.accel_raise_pri = true;
    o.rom_offset = 8;
    o.mode = BuildMode::ReleaseSmall;
    o.append_zig_build_opts_to(&mut args);
    assert_eq!(
        args,
        vec![
            "-Drelease-small",
            "-Dcfi=false",
            "-Dcfi-ctx",
            "-Dcfi-ses",
            "-Dcfi-unnest",
            "-Dcfi-ss",
            "-Dcfi-aborting-ss",
            "-Dcfi-icall",
            "-Daccel-raise-pri",
            "-Drom-offset=8",
        ]
    );
}

#[test]
fn unexercised_dimensions_are_pinned() {
    let used = Benchmark::CoreMark.feature_use();
    let selected = select_build_opts(false, &used);
    assert!(!selected.is_empty());
    for o in selected.iter() {
        assert!(o.ses && !o.unnest);
        assert!(o.ctx);
        assert!(!o.accel_raise_pri);
        assert_eq!(o.validate(), Ok(()));
    }
    // mode x icall x (no ss; ss x aborting)
    assert_eq!(selected.len(), 2 * 2 * 3);

    let used = Benchmark::Latency.feature_use();
    let selected = select_build_opts(false, &used);
    for o in selected.iter() {
        assert!(o.ctx && !o.ss && !o.icall && !o.accel_raise_pri);
    }
    // mode x (no ses; ses x unnest)
    assert_eq!(selected.len(), 2 * 3);

    let all = BuildOpt::all_valid_values(false);
    let expected: Vec<BuildOpt> =
        all.iter().copied().filter(|o| o.is_exercised_by(&used)).collect();
    assert_eq!(selected, expected);
    assert!(full().is_exercised_by(&everything()));
    assert!(!full().is_exercised_by(&used));
}
