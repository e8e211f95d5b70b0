use conf_test::run::{
    begin_run, docs_rs_run, new_run_state, note_lockfile, note_lockfile_delete, plan_feature,
    record_feature, run_features, FeatureAction, ProbeOutcome,
};

fn enable_count(outputs: &[String]) -> usize {
    outputs.iter().filter(|l| l.starts_with("cargo:rustc-cfg=")).count()
}

fn rerun_count(outputs: &[String]) -> usize {
    outputs.iter().filter(|l| l.starts_with("cargo:rerun-if-changed=")).count()
}

#[test]
fn absent_probe_enables_nothing_and_compiles_nothing() {
    assert_eq!(plan_feature(false, false), FeatureAction::SkipAbsent);
    let mut state = new_run_state();
    record_feature(&mut state, &"gone".to_string(), &ProbeOutcome::NoSource);
    assert!(state.enabled.is_empty());
    assert_eq!(enable_count(&state.outputs), 0);
    assert_eq!(
        state.outputs,
        vec![
            "# checking for gone\n".to_string(),
            "# test for 'gone' does not exist\n".to_string(),
            "\n".to_string(),
        ]
    );
}

#[test]
fn manual_feature_is_neither_probed_nor_propagated() {
    assert_eq!(plan_feature(true, true), FeatureAction::SkipManual);
    assert_eq!(plan_feature(true, false), FeatureAction::SkipManual);
    let mut state = new_run_state();
    record_feature(&mut state, &"byhand".to_string(), &ProbeOutcome::ManuallySet);
    assert!(state.enabled.is_empty());
    assert_eq!(
        state.outputs,
        vec!["# test for 'byhand' manually overridden\n".to_string(), "\n".to_string()]
    );
}

#[test]
fn successful_probe_is_enabled_with_its_stdout() {
    assert_eq!(plan_feature(false, true), FeatureAction::Probe);
    let mut state = new_run_state();
    record_feature(
        &mut state,
        &"o_path".to_string(),
        &ProbeOutcome::Enabled("cargo:warning=extra\n".to_string()),
    );
    assert_eq!(state.enabled, vec!["o_path".to_string()]);
    assert_eq!(
        state.outputs,
        vec![
            "# checking for o_path\n".to_string(),
            "# conf_tests/o_path.rs exists\n".to_string(),
            "cargo:rerun-if-changed=conf_tests/o_path.rs\n".to_string(),
            "# compiling ConfTest for o_path success\n".to_string(),
            "# executing ConfTest for o_path success\n".to_string(),
            "cargo:rustc-cfg=feature=\"o_path\"\n".to_string(),
            "cargo:warning=extra\n".to_string(),
            "\n".to_string(),
        ]
    );
}

#[test]
fn compile_failure_is_logged_and_not_enabled() {
    let mut state = new_run_state();
    record_feature(&mut state, &"broken".to_string(), &ProbeOutcome::CompileFailed);
    assert!(state.enabled.is_empty());
    assert_eq!(enable_count(&state.outputs), 0);
    assert_eq!(
        state.outputs,
        vec![
            "# checking for broken\n".to_string(),
            "# conf_tests/broken.rs exists\n".to_string(),
            "cargo:rerun-if-changed=conf_tests/broken.rs\n".to_string(),
            "# compiling ConfTest for broken failed\n".to_string(),
            "\n".to_string(),
        ]
    );
}

#[test]
fn run_failure_is_logged_and_not_enabled() {
    let mut state = new_run_state();
    record_feature(&mut state, &"flaky".to_string(), &ProbeOutcome::RunFailed);
    assert!(state.enabled.is_empty());
    assert_eq!(
        state.outputs,
        vec![
            "# checking for flaky\n".to_string(),
            "# conf_tests/flaky.rs exists\n".to_string(),
            "cargo:rerun-if-changed=conf_tests/flaky.rs\n".to_string(),
            "# compiling ConfTest for flaky success\n".to_string(),
            "# executing ConfTest for flaky failed\n".to_string(),
            "\n".to_string(),
        ]
    );
}

#[test]
fn one_failure_does_not_block_later_successes() {
    let mut state = new_run_state();
    let features = vec!["aa".to_string(), "bb".to_string(), "cc".to_string()];
    let outcomes = vec![
        ProbeOutcome::Enabled(String::new()),
        ProbeOutcome::CompileFailed,
        ProbeOutcome::Enabled(String::new()),
    ];
    run_features(&mut state, &features, &outcomes);
    assert_eq!(state.enabled, vec!["aa".to_string(), "cc".to_string()]);
    assert_eq!(enable_count(&state.outputs), 2);
}

#[test]
fn enablement_only_grows() {
    let mut state = new_run_state();
    record_feature(&mut state, &"one".to_string(), &ProbeOutcome::Enabled(String::new()));
    let before = state.enabled.clone();
    record_feature(&mut state, &"two".to_string(), &ProbeOutcome::RunFailed);
    record_feature(&mut state, &"three".to_string(), &ProbeOutcome::Enabled(String::new()));
    assert_eq!(&state.enabled[..before.len()], &before[..]);
    assert_eq!(state.enabled, vec!["one".to_string(), "three".to_string()]);
}

#[test]
fn two_declared_features_one_probe_source() {
    let mut state = new_run_state();
    let features = vec!["alpha".to_string(), "beta".to_string()];
    let outcomes = vec![ProbeOutcome::Enabled(String::new()), ProbeOutcome::NoSource];
    run_features(&mut state, &features, &outcomes);
    assert_eq!(state.enabled, vec!["alpha".to_string()]);
    assert_eq!(enable_count(&state.outputs), 1);
    assert_eq!(rerun_count(&state.outputs), 1);
    assert!(state.outputs.contains(&"cargo:rustc-cfg=feature=\"alpha\"\n".to_string()));
    assert!(state.outputs.contains(&"# test for 'beta' does not exist\n".to_string()));
}

#[test]
fn identical_inputs_give_identical_runs() {
    let features = vec!["a".to_string(), "b".to_string(), "c".to_string()];
    let outcomes = vec![
        ProbeOutcome::Enabled("out\n".to_string()),
        ProbeOutcome::NoSource,
        ProbeOutcome::RunFailed,
    ];
    let mut first = begin_run(&"\"/out\"".to_string());
    note_lockfile(&mut first, &"\"/src/Cargo.lock\"".to_string(), true);
    run_features(&mut first, &features, &outcomes);
    let mut second = begin_run(&"\"/out\"".to_string());
    note_lockfile(&mut second, &"\"/src/Cargo.lock\"".to_string(), true);
    run_features(&mut second, &features, &outcomes);
    assert_eq!(first.outputs, second.outputs);
    assert_eq!(first.enabled, second.enabled);
}

#[test]
fn documentation_mode_enables_only_the_reserved_feature() {
    let features = vec!["docs_rs".to_string(), "o_path".to_string()];
    let state = docs_rs_run(&features);
    assert_eq!(state.enabled, vec!["docs_rs".to_string()]);
    assert_eq!(
        state.outputs,
        vec![
            "# running on DOCS.RS\n".to_string(),
            "cargo:rustc-cfg=feature=\"docs_rs\"\n".to_string(),
        ]
    );

    let state = docs_rs_run(&vec!["o_path".to_string()]);
    assert!(state.enabled.is_empty());
    assert_eq!(state.outputs, vec!["# running on DOCS.RS\n".to_string()]);
}

#[test]
fn header_and_lockfile_lines_are_exact() {
    let mut state = begin_run(&"\"/out/dir\"".to_string());
    assert_eq!(state.outputs, vec!["# OUT_DIR is '\"/out/dir\"'\n".to_string()]);
    note_lockfile(&mut state, &"\"/p/Cargo.lock\"".to_string(), false);
    assert_eq!(state.outputs[1], "# Lockfile '\"/p/Cargo.lock\"' present: false\n");
    note_lockfile_delete(&mut state, &"\"/p/Cargo.lock\"".to_string(), true);
    assert_eq!(state.outputs[2], "# Delete Lockfile: '\"/p/Cargo.lock\"', true\n");
    assert!(state.enabled.is_empty());
}
