use midenc::wit_world::{
    dependency_wit_candidate_paths, import_world_wit, DependencyInterface, ManifestPackage, MidenDependency,
};

fn interface(name: &str, import: &str, types: &[&str]) -> DependencyInterface {
    DependencyInterface {
        name: name.to_string(),
        import: import.to_string(),
        types: types.iter().map(|t| t.to_string()).collect(),
    }
}

fn dependency() -> MidenDependency {
    MidenDependency {
        name: "multi-account".to_string(),
        root: "/deps/multi".to_string(),
        interfaces: vec![
            interface("first-api", "miden:multi-account/first-api@0.0.1", &["a"]),
            interface("second-api", "miden:multi-account/second-api@0.0.1", &["b", "c"]),
        ],
    }
}

#[test]
fn selects_interfaces_by_name() {
    let dep = dependency();
    let selected = dep.select("second-api").expect("interface must be selectable");
    assert_eq!(selected.name, "multi-account");
    assert_eq!(selected.root, "/deps/multi");
    assert_eq!(selected.import(), "miden:multi-account/second-api@0.0.1");
    assert_eq!(selected.type_names(), &["b".to_string(), "c".to_string()]);
    assert!(dep.select("missing-api").is_none());
    assert_eq!(dep.interface_names(), vec!["first-api", "second-api"]);
}

#[test]
fn import_world_renders_each_import() {
    let wit = import_world_wit("fpi", &["miden:a/b@1.0.0".to_string(), "miden:c/d@1.0.0".to_string()]);
    assert_eq!(
        wit,
        "package miden:fpi@1.0.0;\n\nworld fpi {\n    import miden:a/b@1.0.0;\n    import miden:c/d@1.0.0;\n}\n"
    );
    assert_eq!(import_world_wit("w", &[]), "package miden:w@1.0.0;\n\nworld w {\n}\n");
}

#[test]
fn component_package_is_kebab_case() {
    let package = ManifestPackage { package_name: "MyNote_script".to_string(), project_kind: None };
    assert_eq!(package.component_package(), "miden:my-note-script");
    assert!(!package.requires_auth_script());
    let auth = ManifestPackage {
        package_name: "auth".to_string(),
        project_kind: Some("authentication-component".to_string()),
    };
    assert!(auth.requires_auth_script());
}

#[test]
fn candidate_wit_paths() {
    let root = vec!["deps".to_string(), "wallet".to_string()];
    let dirs = dependency_wit_candidate_paths(&root, false);
    assert_eq!(dirs.len(), 3);
    assert_eq!(dirs[0], root);
    assert_eq!(dirs[1], vec!["deps", "wallet", "wit"]);
    assert_eq!(dirs[2], vec!["deps", "wallet", "target", "generated-wit"]);
    assert_eq!(dependency_wit_candidate_paths(&root, true), vec![root.clone()]);
}

use midenc::wit_world::{dependency_wit_error_message, parse_dependency_wit_file, DependencyWit, WitProbe, WitSearch};

#[test]
fn missing_dependency_wit_message_is_actionable() {
    let candidates = vec![
        "/deps/basic-wallet".to_string(),
        "/deps/basic-wallet/wit".to_string(),
        "/deps/basic-wallet/target/generated-wit".to_string(),
    ];
    let message = dependency_wit_error_message(
        "basic-wallet",
        "/deps/basic-wallet",
        "/deps/basic-wallet",
        "no WIT world definition found",
        &candidates,
    );
    assert!(message.contains("failed to load dependency WIT metadata for dependency 'basic-wallet'"));
    assert!(message.contains("The SDK macro needs the dependency's generated WIT"));
    assert!(message.contains("target/generated-wit"));
    assert!(message.contains("package.metadata.miden.dependencies.basic-wallet.wit"));
    assert!(message.contains("Generate the dependency WIT"));
    assert!(message.contains(
        "Searched for WIT world definitions in: '/deps/basic-wallet', '/deps/basic-wallet/wit', '/deps/basic-wallet/target/generated-wit'. "
    ));
    assert!(message.starts_with(
        "failed to load dependency WIT metadata for dependency 'basic-wallet' (dependency root '/deps/basic-wallet', WIT root '/deps/basic-wallet'): no WIT world definition found. "
    ));
}

#[test]
fn wit_search_stops_at_the_first_world_and_reports_parser_errors() {
    let mut search = WitSearch::new();
    assert!(search.record("/a", WitProbe::Missing).is_none());
    assert!(search.record("/a/wit", WitProbe::Failed("bad token".to_string())).is_none());
    assert!(search.record("/a/x", WitProbe::NoInterfaces).is_none());
    let found = search.record("/a/y", WitProbe::Found(DependencyWit { interfaces: vec![interface("api", "miden:a/api@1.0.0", &[])] }));
    assert_eq!(found.unwrap().interfaces[0].name, "api");

    let mut failing = WitSearch::new();
    failing.record("/a", WitProbe::Failed("one".to_string()));
    failing.record("/b", WitProbe::Failed("two".to_string()));
    assert_eq!(failing.finish(), "no WIT world definition found; parser errors: '/a': one; '/b': two");
    assert_eq!(WitSearch::new().finish(), "no WIT world definition found");
}

#[test]
fn wit_file_root_must_export_a_world() {
    let err = parse_dependency_wit_file("/x.wit", Ok(None)).unwrap_err();
    assert_eq!(err, "WIT file '/x.wit' does not contain a world export");
    assert_eq!(parse_dependency_wit_file("/x.wit", Err("broken".to_string())).unwrap_err(), "broken");
    let ok = parse_dependency_wit_file("/x.wit", Ok(Some(DependencyWit { interfaces: vec![] }))).unwrap();
    assert!(ok.interfaces.is_empty());
}

#[test]
fn component_package_id_prefixes_the_namespace() {
    assert_eq!(midenc::wit_world::component_package_id("basic-wallet"), "miden:basic-wallet");
}
