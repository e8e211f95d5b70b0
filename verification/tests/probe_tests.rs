use conf_test::artifacts::{ArtifactKind, ExternLibs, LibEntry};
use conf_test::edition::{edition_to_str, resolve_edition, Edition};
use conf_test::probe::{compile_command, probe_binary_path, probe_source_path};

#[test]
fn editions_have_their_command_line_form() {
    assert_eq!(edition_to_str(&Edition::E2015), "2015");
    assert_eq!(edition_to_str(&Edition::E2018), "2018");
    assert_eq!(edition_to_str(&Edition::E2021), "2021");
}

#[test]
fn missing_edition_falls_back_to_baseline() {
    assert_eq!(resolve_edition(None), Edition::E2021);
    assert_eq!(resolve_edition(Some(Edition::E2015)), Edition::E2015);
}

#[test]
fn probe_sources_follow_the_convention() {
    assert_eq!(probe_source_path(&"o_path".to_string()), "conf_tests/o_path.rs");
}

#[test]
fn probe_binaries_land_in_the_staging_directory() {
    assert_eq!(
        probe_binary_path(&"/out/conf_test".to_string(), &"conf_tests/o_path.rs".to_string()),
        "/out/conf_test/o_path"
    );
}

#[test]
fn compile_command_lists_every_argument_in_order() {
    let libs = ExternLibs {
        entries: vec![LibEntry {
            id: "liblibc-1".to_string(),
            name: "libc".to_string(),
            path: "/t/deps/liblibc-1.rlib".to_string(),
            kind: ArtifactKind::Linkable,
        }],
    };
    let features = vec!["aa_foo".to_string()];
    let (out_file, args) = compile_command(
        &"conf_tests/bb_bar.rs".to_string(),
        &"/out/conf_test".to_string(),
        &Edition::E2018,
        &libs,
        &features,
    );
    assert_eq!(out_file, "/out/conf_test/bb_bar");
    assert_eq!(
        args,
        vec![
            "--crate-type".to_string(),
            "bin".to_string(),
            "--edition".to_string(),
            "2018".to_string(),
            "-o".to_string(),
            "/out/conf_test/bb_bar".to_string(),
            "-v".to_string(),
            "conf_tests/bb_bar.rs".to_string(),
            "--extern".to_string(),
            "libc=/t/deps/liblibc-1.rlib".to_string(),
            "--cfg".to_string(),
            "feature=\"aa_foo\"".to_string(),
        ]
    );
}

#[test]
fn link_references_ascend_by_identifier() {
    let lines = vec![
        artifact_line("serde", "/t/libserde-2.rlib"),
        artifact_line("libc", "/t/liblibc-1.rlib"),
    ];
    let libs = conf_test::artifacts::get_extern_libs(
        &lines,
        &vec!["libc".to_string(), "serde".to_string()],
    );
    let (_, args) = compile_command(
        &"conf_tests/x.rs".to_string(),
        &"/s".to_string(),
        &Edition::E2021,
        &libs,
        &Vec::new(),
    );
    assert_eq!(
        &args[8..],
        &[
            "--extern".to_string(),
            "libc=/t/liblibc-1.rlib".to_string(),
            "--extern".to_string(),
            "serde=/t/libserde-2.rlib".to_string(),
        ]
    );
}

fn artifact_line(name: &str, filename: &str) -> String {
    let target = format!(
        "{{\"name\":\"{}\",\"kind\":[\"lib\"],\"crate_types\":[\"lib\"],\"src_path\":\"/src/{}/src/lib.rs\",\"edition\":\"2021\"}}",
        name, name
    );
    let profile = "{\"opt_level\":\"0\",\"debuginfo\":0,\"debug_assertions\":true,\"overflow_checks\":true,\"test\":false}";
    format!(
        "{{\"reason\":\"compiler-artifact\",\"package_id\":\"{} 0.1.0 (registry)\",\"manifest_path\":\"/src/{}/Cargo.toml\",\"target\":{},\"profile\":{},\"features\":[],\"filenames\":[\"{}\"],\"executable\":null,\"fresh\":false}}",
        name, name, target, profile, filename
    )
}

#[test]
fn compile_command_without_libs_or_features_is_bare() {
    let libs = ExternLibs { entries: Vec::new() };
    let (out_file, args) = compile_command(
        &"conf_tests/x.rs".to_string(),
        &"/s".to_string(),
        &Edition::E2021,
        &libs,
        &Vec::new(),
    );
    assert_eq!(out_file, "/s/x");
    assert_eq!(args.len(), 8);
    assert_eq!(args[3], "2021");
    assert!(!args.contains(&"--extern".to_string()));
    assert!(!args.contains(&"--cfg".to_string()));
}
