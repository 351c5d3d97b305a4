use midenc::felt::{Felt, Word};
use midenc::registry::{
    HybridPackageRegistry, InstallPackageError, LoadPackageError, Package, PackageDependency, PackageRecord,
    PackageVersion, RegisterError, SemVer,
};

fn word(x: u64) -> Word {
    Word::new([Felt::new(x).unwrap(), Felt::zero(), Felt::zero(), Felt::zero()])
}

fn semver(major: u64, minor: u64, patch: u64) -> SemVer {
    SemVer { major, minor, patch }
}

fn package(name: &str, version: SemVer, digest: u64) -> Package {
    Package {
        name: name.to_string(),
        version,
        digest: word(digest),
        dependencies: vec![PackageDependency { name: "miden-core".to_string(), version: semver(0, 1, 0), digest: word(9) }],
    }
}

#[test]
fn installed_package_loads_back() {
    let mut registry = HybridPackageRegistry::empty();
    let v = registry.install_if_missing(package("wallet", semver(1, 2, 3), 7)).unwrap();
    assert_eq!(v, PackageVersion { version: semver(1, 2, 3), digest: Some(word(7)) });
    assert!(registry.is_semver_available(&"wallet".to_string(), semver(1, 2, 3)));
    let loaded = registry.load_package(&"wallet".to_string(), v).unwrap();
    assert_eq!(loaded.name, "wallet");
    assert_eq!(loaded.digest, word(7));
    assert_eq!(loaded.dependencies[0].name, "miden-core");
}

#[test]
fn conflicting_digest_is_refused() {
    let mut registry = HybridPackageRegistry::empty();
    registry.install_if_missing(package("wallet", semver(1, 0, 0), 7)).unwrap();
    // Reinstalling the same digest is fine.
    assert!(registry.install_if_missing(package("wallet", semver(1, 0, 0), 7)).is_ok());
    assert_eq!(
        registry.install_if_missing(package("wallet", semver(1, 0, 0), 8)),
        Err(InstallPackageError::AlreadyInstalledWithDifferentDigest {
            package: "wallet".to_string(),
            version: PackageVersion { version: semver(1, 0, 0), digest: Some(word(8)) },
        })
    );
    let kept = registry
        .load_package(&"wallet".to_string(), PackageVersion { version: semver(1, 0, 0), digest: Some(word(7)) })
        .unwrap();
    assert_eq!(kept.digest, word(7));
}

#[test]
fn loading_needs_the_exact_digest() {
    let mut registry = HybridPackageRegistry::empty();
    registry.install_if_missing(package("lib", semver(0, 3, 0), 5)).unwrap();
    let unpinned = PackageVersion { version: semver(0, 3, 0), digest: None };
    assert_eq!(
        registry.load_package(&"lib".to_string(), unpinned).err(),
        Some(LoadPackageError::DigestMismatch { package: "lib".to_string(), version: unpinned })
    );
    let missing = PackageVersion { version: semver(0, 4, 0), digest: Some(word(5)) };
    assert_eq!(
        registry.load_package(&"lib".to_string(), missing).err(),
        Some(LoadPackageError::NotFound { package: "lib".to_string(), version: missing })
    );
}

#[test]
fn versions_register_once() {
    let mut registry = HybridPackageRegistry::empty();
    let record = || PackageRecord { version: PackageVersion { version: semver(2, 0, 0), digest: None }, dependencies: vec![] };
    assert_eq!(registry.register("dep".to_string(), record()), Ok(()));
    assert_eq!(
        registry.register("dep".to_string(), record()),
        Err(RegisterError::AlreadyRegistered { package: "dep".to_string(), version: semver(2, 0, 0) })
    );
    // A version recorded without a digest accepts any artifact.
    assert!(registry.install_if_missing(package("dep", semver(2, 0, 0), 3)).is_ok());
}
