use midenc::cargo::{
    build_cargo_args, infer_cargo_project_entrypoint, is_cargo_project_input, modify_midenc_options_for_target,
    selected_executable_target_name, CargoOptions, ProjectTargets, RemapPathPrefix, TargetOptions, TargetType,
};

const FIXED_ARGS: [&str; 23] = [
    "build",
    "-Z",
    "build-std=core,alloc,panic_abort",
    "-Z",
    "build-std-features=optimize_for_size",
    "--config",
    "profile.dev.panic=\"abort\"",
    "--config",
    "profile.dev.opt-level=1",
    "--config",
    "profile.dev.overflow-checks=false",
    "--config",
    "profile.dev.debug=true",
    "--config",
    "profile.dev.debug-assertions=false",
    "--config",
    "profile.release.opt-level=\"s\"",
    "--config",
    "profile.release.lto=true",
    "--config",
    "profile.release.codegen-units=1",
    "--config",
    "profile.release.panic=\"abort\"",
];

#[test]
fn cargo_args_for_default_options() {
    let args = build_cargo_args(&CargoOptions::default());
    assert_eq!(args, FIXED_ARGS.to_vec());
}

#[test]
fn cargo_args_forward_cargo_options() {
    let opts = CargoOptions {
        release: true,
        manifest_path: Some("proj/Cargo.toml".to_string()),
        workspace: true,
        packages: vec!["a".to_string(), "b".to_string()],
    };
    let args = build_cargo_args(&opts);
    let mut expected: Vec<&str> = FIXED_ARGS.to_vec();
    expected.extend(["--release", "--manifest-path", "proj/Cargo.toml", "--workspace", "--package", "a", "--package", "b"]);
    assert_eq!(args, expected);
}

#[test]
fn cargo_project_input_is_case_insensitive() {
    assert!(is_cargo_project_input(Some("Cargo.toml")));
    assert!(is_cargo_project_input(Some("cargo.TOML")));
    assert!(!is_cargo_project_input(Some("Cargo.lock")));
    assert!(!is_cargo_project_input(None));
}

fn options(target_type: Option<TargetType>, target: Option<&str>) -> TargetOptions {
    TargetOptions {
        debug: false,
        remap_path_prefixes: Vec::new(),
        entrypoint: None,
        target_type,
        target: target.map(str::to_string),
    }
}

fn targets(names: &[&str]) -> Vec<String> {
    names.iter().map(|n| n.to_string()).collect()
}

#[test]
fn executable_entrypoint_uses_module_name() {
    let mut opts = options(Some(TargetType::Executable), None);
    assert_eq!(infer_cargo_project_entrypoint(&targets(&["my-app"]), &mut opts), Ok(()));
    assert_eq!(opts.entrypoint.as_deref(), Some("my_app::entrypoint"));

    let mut opts = options(Some(TargetType::Executable), Some("b-c"));
    assert_eq!(infer_cargo_project_entrypoint(&targets(&["a", "b-c"]), &mut opts), Ok(()));
    assert_eq!(opts.entrypoint.as_deref(), Some("b_c::entrypoint"));
}

#[test]
fn executable_selection_errors() {
    let mut opts = options(Some(TargetType::Executable), Some("missing"));
    assert_eq!(
        infer_cargo_project_entrypoint(&targets(&["a"]), &mut opts),
        Err("no executable target name 'missing'".to_string())
    );
    assert_eq!(opts.entrypoint, None);
    let mut opts = options(Some(TargetType::Executable), None);
    assert_eq!(
        infer_cargo_project_entrypoint(&targets(&["a", "b"]), &mut opts),
        Err("ambiguous executable target selection: use --target to select a specific executable target".to_string())
    );
}

#[test]
fn given_entrypoint_and_other_targets() {
    let mut opts = options(Some(TargetType::Executable), Some("missing"));
    opts.entrypoint = Some("given::main".to_string());
    assert_eq!(infer_cargo_project_entrypoint(&targets(&[]), &mut opts), Ok(()));
    assert_eq!(opts.entrypoint.as_deref(), Some("given::main"));

    let mut opts = options(Some(TargetType::TransactionScript), None);
    assert_eq!(infer_cargo_project_entrypoint(&targets(&[]), &mut opts), Ok(()));
    assert_eq!(opts.entrypoint.as_deref(), Some("miden:base/transaction-script@1.0.0::run"));

    let mut opts = options(Some(TargetType::Library), None);
    assert_eq!(infer_cargo_project_entrypoint(&targets(&[]), &mut opts), Ok(()));
    assert_eq!(opts.entrypoint, None);
}

#[test]
fn target_options_follow_the_project() {
    let project = ProjectTargets {
        manifest_dir: Some("/src/proj".to_string()),
        library_target: Some(TargetType::AccountComponent),
        executable_targets: targets(&["tool"]),
    };
    let mut opts = options(None, None);
    opts.debug = true;
    assert_eq!(modify_midenc_options_for_target(&project, &mut opts), Ok(()));
    assert_eq!(opts.remap_path_prefixes, vec![RemapPathPrefix { from: "/src/proj".to_string(), to: None }]);
    assert_eq!(opts.entrypoint, None);

    let exe = ProjectTargets { manifest_dir: None, library_target: None, executable_targets: targets(&["my-tool"]) };
    let mut opts = options(None, None);
    assert_eq!(modify_midenc_options_for_target(&exe, &mut opts), Ok(()));
    assert_eq!(opts.entrypoint.as_deref(), Some("my_tool::entrypoint"));
    assert!(opts.remap_path_prefixes.is_empty());

    let mut opts = options(Some(TargetType::Kernel), None);
    assert_eq!(
        modify_midenc_options_for_target(&exe, &mut opts),
        Err("kernels are not currently supported via midenc".to_string())
    );
    let mut opts = options(Some(TargetType::Other), None);
    assert_eq!(
        modify_midenc_options_for_target(&exe, &mut opts),
        Err("unsupported --target-type: {target_type}".to_string())
    );
}

#[test]
fn executable_target_name_selection() {
    let two = targets(&["a", "b"]);
    assert_eq!(selected_executable_target_name(&two, Some("x"), "session"), "x");
    assert_eq!(selected_executable_target_name(&two, None, "session"), "session");
    assert_eq!(selected_executable_target_name(&targets(&["only"]), None, "session"), "only");
}

use midenc::cargo::extra_rust_flags;

const BASE_FLAGS: &str = "-C target-feature=+bulk-memory,+wide-arithmetic --cfg miden -C link-args=--fatal-warnings -Zlocation-detail=none -Zunstable-options -Cpanic=immediate-abort";

#[test]
fn rust_flags_append_inherited_and_explicit_flags() {
    assert_eq!(extra_rust_flags(None, None), BASE_FLAGS);
    assert_eq!(extra_rust_flags(Some(""), None), BASE_FLAGS);
    assert_eq!(extra_rust_flags(Some("-Copt-level=z"), Some("-g")), format!("{BASE_FLAGS} -Copt-level=z -g"));
    assert_eq!(extra_rust_flags(None, Some("")), format!("{BASE_FLAGS} "));
}

use midenc::cargo::{cargo_wasi, check_requested_packages, project_manifest_location};

fn parts(p: &[&str]) -> Vec<String> {
    p.iter().map(|c| c.to_string()).collect()
}

#[test]
fn a_project_manifest_path_is_the_project_manifest() {
    let path = parts(&["/", "work", "proj", "Miden-Project.toml"]);
    let (dir, manifest) = project_manifest_location(Some(&path), &parts(&["/", "cwd"]), None).unwrap();
    assert_eq!(dir, parts(&["/", "work", "proj"]));
    assert_eq!(manifest, path);
}

#[test]
fn a_cargo_manifest_path_points_at_the_project_manifest_beside_it() {
    let path = parts(&["proj", "Cargo.toml"]);
    let (dir, manifest) = project_manifest_location(Some(&path), &parts(&["/", "cwd"]), None).unwrap();
    assert_eq!(dir, parts(&["proj"]));
    assert_eq!(manifest, parts(&["proj", "miden-project.toml"]));
    assert_eq!(
        project_manifest_location(Some(&parts(&[])), &parts(&["/", "cwd"]), None).unwrap_err(),
        "unable to locate project manifest: --manifest-path specifies a path with no parent"
    );
}

#[test]
fn without_a_manifest_path_the_working_directory_holds_the_project() {
    let cwd = parts(&["/", "home", "p"]);
    let (dir, manifest) = project_manifest_location(None, &parts(&["/"]), Some(&cwd)).unwrap();
    assert_eq!(dir, cwd);
    assert_eq!(manifest, parts(&["/", "home", "p", "miden-project.toml"]));
    assert_eq!(
        project_manifest_location(None, &parts(&["/"]), None).unwrap_err(),
        "unable to locate project manifest: current working directory is unavailable"
    );
}

#[test]
fn requested_packages_must_name_the_project_package() {
    assert!(check_requested_packages(&[], "app").is_ok());
    assert!(check_requested_packages(&parts(&["app"]), "app").is_ok());
    assert_eq!(
        check_requested_packages(&parts(&["lib"]), "app").unwrap_err(),
        "the provided project manifest defines a package (lib) that differs from the one requested via --package (app)"
    );
    assert_eq!(
        check_requested_packages(&parts(&["app", "lib"]), "app").unwrap_err(),
        "multiple packages were requested via --package, but the project manifest only defines a single package (app)"
    );
}

#[test]
fn the_wasi_flavour_follows_the_protocol() {
    assert_eq!(cargo_wasi(true), "wasip2");
    assert_eq!(cargo_wasi(false), "wasip1");
}
