use conf_test::artifacts::{ext_kind, get_extern_libs, split_stem_ext, ArtifactKind};

fn artifact_line(name: &str, filenames: &[&str]) -> String {
    let files = filenames
        .iter()
        .map(|f| format!("\"{}\"", f))
        .collect::<Vec<_>>()
        .join(",");
    let target = format!(
        "{{\"name\":\"{}\",\"kind\":[\"lib\"],\"crate_types\":[\"lib\"],\"src_path\":\"/src/{}/src/lib.rs\",\"edition\":\"2021\"}}",
        name, name
    );
    let profile = "{\"opt_level\":\"0\",\"debuginfo\":0,\"debug_assertions\":true,\"overflow_checks\":true,\"test\":false}";
    format!(
        "{{\"reason\":\"compiler-artifact\",\"package_id\":\"{} 0.1.0 (registry)\",\"manifest_path\":\"/src/{}/Cargo.toml\",\"target\":{},\"profile\":{},\"features\":[],\"filenames\":[{}],\"executable\":null,\"fresh\":false}}",
        name, name, target, profile, files
    )
}

fn deps(v: &[&str]) -> Vec<String> {
    v.iter().map(|s| s.to_string()).collect()
}

#[test]
fn stem_and_extension_are_split() {
    let (stem, ext) = split_stem_ext("/t/deps/liblibc-12ab.rlib");
    assert_eq!(stem, "liblibc-12ab");
    assert_eq!(ext, "rlib");

    let (stem, ext) = split_stem_ext("noext");
    assert_eq!(stem, "noext");
    assert_eq!(ext, "");

    let (stem, ext) = split_stem_ext("/a/b/.hidden");
    assert_eq!(stem, ".hidden");
    assert_eq!(ext, "");

    let (stem, ext) = split_stem_ext("dir.v2/file.tar.gz");
    assert_eq!(stem, "file.tar");
    assert_eq!(ext, "gz");
}

#[test]
fn backslash_separates_components_too() {
    let (stem, ext) = split_stem_ext("C:\\t\\deps\\liblibc-12ab.rlib");
    assert_eq!(stem, "liblibc-12ab");
    assert_eq!(ext, "rlib");

    let (stem, ext) = split_stem_ext("mixed/dir\\libfoo-9.rmeta");
    assert_eq!(stem, "libfoo-9");
    assert_eq!(ext, "rmeta");
}

#[test]
fn extensions_classify_kinds() {
    assert_eq!(ext_kind(&"rlib".to_string()), ArtifactKind::Linkable);
    assert_eq!(ext_kind(&"rmeta".to_string()), ArtifactKind::MetadataOnly);
    assert_eq!(ext_kind(&"d".to_string()), ArtifactKind::Other);
    assert_eq!(ext_kind(&"".to_string()), ArtifactKind::Other);
}

#[test]
fn one_artifact_is_recorded() {
    let lines = vec![artifact_line("libc", &["/t/deps/liblibc-1.rlib"])];
    let libs = get_extern_libs(&lines, &deps(&["libc"]));
    assert_eq!(libs.entries.len(), 1);
    assert_eq!(libs.entries[0].id, "liblibc-1");
    assert_eq!(libs.entries[0].name, "libc");
    assert_eq!(libs.entries[0].path, "/t/deps/liblibc-1.rlib");
    assert_eq!(libs.entries[0].kind, ArtifactKind::Linkable);
}

#[test]
fn non_dependencies_are_filtered_out() {
    let lines = vec![artifact_line("other", &["/t/deps/libother-1.rlib"])];
    let libs = get_extern_libs(&lines, &deps(&["libc"]));
    assert!(libs.entries.is_empty());
}

#[test]
fn unrelated_lines_are_ignored() {
    let lines = vec![
        "{\"reason\":\"build-finished\",\"success\":true}".to_string(),
        "plain text, no artifact here".to_string(),
        "".to_string(),
    ];
    let libs = get_extern_libs(&lines, &deps(&["libc"]));
    assert!(libs.entries.is_empty());
}

#[test]
fn linkable_outranks_metadata_in_either_order() {
    let lines = vec![artifact_line(
        "libc",
        &["/t/deps/liblibc-1.rlib", "/t/deps/liblibc-1.rmeta"],
    )];
    let libs = get_extern_libs(&lines, &deps(&["libc"]));
    assert_eq!(libs.entries.len(), 1);
    assert_eq!(libs.entries[0].kind, ArtifactKind::Linkable);
    assert_eq!(libs.entries[0].path, "/t/deps/liblibc-1.rlib");

    let lines = vec![artifact_line(
        "libc",
        &["/t/deps/liblibc-1.rmeta", "/t/deps/liblibc-1.rlib"],
    )];
    let libs = get_extern_libs(&lines, &deps(&["libc"]));
    assert_eq!(libs.entries.len(), 1);
    assert_eq!(libs.entries[0].kind, ArtifactKind::Linkable);
    assert_eq!(libs.entries[0].path, "/t/deps/liblibc-1.rlib");
}

#[test]
fn metadata_outranks_other_kinds() {
    let lines = vec![artifact_line(
        "libc",
        &["/t/deps/liblibc-1.d", "/t/deps/liblibc-1.rmeta", "/t/other/liblibc-1.d"],
    )];
    let libs = get_extern_libs(&lines, &deps(&["libc"]));
    assert_eq!(libs.entries.len(), 1);
    assert_eq!(libs.entries[0].kind, ArtifactKind::MetadataOnly);
    assert_eq!(libs.entries[0].path, "/t/deps/liblibc-1.rmeta");
}

#[test]
fn equal_kinds_keep_the_newest() {
    let lines = vec![
        artifact_line("libc", &["/pass1/liblibc-1.rmeta"]),
        artifact_line("libc", &["/pass2/liblibc-1.rmeta"]),
    ];
    let libs = get_extern_libs(&lines, &deps(&["libc"]));
    assert_eq!(libs.entries.len(), 1);
    assert_eq!(libs.entries[0].path, "/pass2/liblibc-1.rmeta");
}

#[test]
fn distinct_stems_are_kept_apart() {
    let lines = vec![
        artifact_line("libc", &["/t/liblibc-1.rlib"]),
        artifact_line("serde", &["/t/libserde-2.rlib"]),
    ];
    let libs = get_extern_libs(&lines, &deps(&["libc", "serde"]));
    assert_eq!(libs.entries.len(), 2);
    assert_eq!(libs.entries[0].name, "libc");
    assert_eq!(libs.entries[1].name, "serde");
}

#[test]
fn entries_ascend_by_identifier_whatever_the_stream_order() {
    let lines = vec![
        artifact_line("zlib", &["/t/libzlib-9.rlib"]),
        artifact_line("adler", &["/t/libadler-1.rlib"]),
        artifact_line("memchr", &["/t/libmemchr-5.rlib"]),
    ];
    let libs = get_extern_libs(&lines, &deps(&["adler", "memchr", "zlib"]));
    let ids: Vec<&str> = libs.entries.iter().map(|e| e.id.as_str()).collect();
    assert_eq!(ids, vec!["libadler-1", "libmemchr-5", "libzlib-9"]);
}
