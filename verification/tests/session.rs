use midenc::session::{session_name, InputName};

fn real_input(stem: Option<&str>, extension: Option<&str>) -> InputName {
    InputName::Real { stem: stem.map(str::to_string), extension: extension.map(str::to_string) }
}

fn stdin(name: &str, filestem: &str, dir: Option<&str>) -> InputName {
    InputName::Stdin { name: name.to_string(), filestem: filestem.to_string(), current_dir_stem: dir.map(str::to_string) }
}

#[test]
fn given_name_and_output_stem_come_first() {
    assert_eq!(session_name(&Some("app".to_string()), &Some("out".to_string()), &real_input(Some("in"), None)), "app");
    assert_eq!(session_name(&None, &Some("out".to_string()), &real_input(Some("in"), None)), "out");
}

#[test]
fn input_paths_name_the_artifact() {
    assert_eq!(session_name(&None, &None, &real_input(Some("lib"), Some("wasm"))), "lib");
    assert_eq!(session_name(&None, &None, &real_input(None, Some("wat"))), "wat");
}

#[test]
fn placeholder_stdin_is_named_after_the_directory() {
    assert_eq!(session_name(&None, &None, &stdin("stdin", "stdin", Some("project"))), "project");
    assert_eq!(session_name(&None, &None, &stdin("empty", "empty", None)), "empty");
    assert_eq!(session_name(&None, &None, &stdin("module.wat", "module", Some("project"))), "module");
}

use midenc::session::{default_package, session_remap_prefix};

fn parts(p: &[&str]) -> Vec<String> {
    p.iter().map(|c| c.to_string()).collect()
}

#[test]
fn the_default_package_links_the_core_library() {
    let package = default_package("counter", None, "file:///src/counter.wasm");
    assert_eq!(package.name, "counter");
    assert_eq!(package.target_name, "counter");
    assert_eq!(package.target_type, None);
    assert_eq!(package.source, "file:///src/counter.wasm");
    assert_eq!(package.dependencies.len(), 1);
    assert_eq!(package.dependencies[0].name, "miden-core");
    assert_eq!(package.dependencies[0].version_requirement, "*");
    assert!(package.dependencies[0].dynamic);
}

#[test]
fn the_project_source_directory_is_remapped_to_the_input() {
    let tmp = parts(&["/", "tmp"]);
    let (from, to) = session_remap_prefix(&tmp, "counter", &parts(&["/", "work", "src", "lib.rs"]), &parts(&["/", "work"]));
    assert_eq!(from, parts(&["/", "tmp", "counter", "src"]));
    assert_eq!(to, Some(parts(&["src", "lib.rs"])));
    // Outside the working directory an absolute input maps to its parent directory.
    let (_, to) = session_remap_prefix(&tmp, "counter", &parts(&["/", "other", "lib.rs"]), &parts(&["/", "work"]));
    assert_eq!(to, Some(parts(&["/", "other"])));
    // A relative input maps to its parent directory.
    let (_, to) = session_remap_prefix(&tmp, "c", &parts(&["lib.wasm"]), &parts(&["/", "work"]));
    assert_eq!(to, Some(parts(&[])));
}
