//! The in-memory package registry of a compiler session: the package versions known to the
//! session, and the package artifacts that can be loaded from it.

use vstd::prelude::*;

use crate::felt::Word;

verus! {

/// A semantic version.
#[derive(Clone, Copy, Debug, PartialEq, Eq, PartialOrd, Ord, Hash, Structural)]
pub struct SemVer {
    /// The major version.
    pub major: u64,
    /// The minor version.
    pub minor: u64,
    /// The patch version.
    pub patch: u64,
}

/// A package version, optionally pinned to the digest of a specific artifact.
#[derive(Clone, Copy, Debug, PartialEq, Eq, Structural)]
pub struct PackageVersion {
    /// The semantic version.
    pub version: SemVer,
    /// The digest of the artifact, if pinned.
    pub digest: Option<Word>,
}

/// A dependency of a package on an exact version of another.
#[derive(Debug)]
pub struct PackageDependency {
    /// The name of the package depended on.
    pub name: String,
    /// Its semantic version.
    pub version: SemVer,
    /// The digest of its artifact.
    pub digest: Word,
}

/// A package artifact.
#[derive(Debug)]
pub struct Package {
    /// The package name.
    pub name: String,
    /// The package's semantic version.
    pub version: SemVer,
    /// The digest of the artifact.
    pub digest: Word,
    /// The package's dependencies.
    pub dependencies: Vec<PackageDependency>,
}

/// What the registry records of one version of a package: the version and the exact versions
/// of its dependencies.
#[derive(Debug)]
pub struct PackageRecord {
    /// The recorded version.
    pub version: PackageVersion,
    /// The dependencies, each required at an exact version.
    pub dependencies: Vec<(String, PackageVersion)>,
}

/// An error installing a package.
#[derive(Debug, PartialEq, Eq)]
pub enum InstallPackageError {
    /// The version of the package is already registered under a different digest.
    AlreadyInstalledWithDifferentDigest {
        /// The package.
        package: String,
        /// The version that was being installed.
        version: PackageVersion,
    },
}

/// An error registering a package version.
#[derive(Debug, PartialEq, Eq)]
pub enum RegisterError {
    /// The version is already registered.
    AlreadyRegistered {
        /// The package.
        package: String,
        /// The semantic version.
        version: SemVer,
    },
}

/// An error loading a package.
#[derive(Debug, PartialEq, Eq)]
pub enum LoadPackageError {
    /// A specific digest was requested, but differs from the available artifact's.
    DigestMismatch {
        /// The package.
        package: String,
        /// The requested version.
        version: PackageVersion,
    },
    /// No artifact of that version of the package is available.
    NotFound {
        /// The package.
        package: String,
        /// The requested version.
        version: PackageVersion,
    },
}

/// The in-memory package registry: records of known package versions, and loadable artifacts.
/// Later entries for the same package and semantic version supersede earlier ones.
pub struct HybridPackageRegistry {
    packages: Vec<(String, SemVer, PackageRecord)>,
    artifacts: Vec<(String, SemVer, Package)>,
}

/// The record of version `version` of package `name`: the latest entry for them.
pub open spec fn spec_record(
    packages: Seq<(String, SemVer, PackageRecord)>,
    name: Seq<char>,
    version: SemVer,
) -> Option<PackageRecord>
    decreases packages.len(),
{
    if packages.len() == 0 {
        None
    } else if packages.last().0@ == name && packages.last().1 == version {
        Some(packages.last().2)
    } else {
        spec_record(packages.drop_last(), name, version)
    }
}

/// The artifact of version `version` of package `name`: the latest entry for them.
pub open spec fn spec_artifact(
    artifacts: Seq<(String, SemVer, Package)>,
    name: Seq<char>,
    version: SemVer,
) -> Option<Package>
    decreases artifacts.len(),
{
    if artifacts.len() == 0 {
        None
    } else if artifacts.last().0@ == name && artifacts.last().1 == version {
        Some(artifacts.last().2)
    } else {
        spec_artifact(artifacts.drop_last(), name, version)
    }
}

/// The version of an installed package: its semantic version pinned to its digest.
pub open spec fn spec_package_version(p: Package) -> PackageVersion {
    PackageVersion { version: p.version, digest: Some(p.digest) }
}

/// Whether installing `p` conflicts with a record of the same version under another digest.
pub open spec fn spec_install_conflicts(packages: Seq<(String, SemVer, PackageRecord)>, p: Package) -> bool {
    match spec_record(packages, p.name@, p.version) {
        Some(prev) => prev.version.digest is Some && prev.version.digest != Some(p.digest),
        None => false,
    }
}

/// The record of an installed package: its pinned version, and each dependency at its pinned
/// version.
pub open spec fn spec_record_of(p: Package, r: PackageRecord) -> bool {
    &&& r.version == spec_package_version(p)
    &&& r.dependencies@.len() == p.dependencies@.len()
    &&& forall|i: int|
        0 <= i < r.dependencies@.len() ==> (#[trigger] r.dependencies@[i]).0@
            == p.dependencies@[i].name@ && r.dependencies@[i].1 == (PackageVersion {
            version: p.dependencies@[i].version,
            digest: Some(p.dependencies@[i].digest),
        })
}

impl HybridPackageRegistry {
    /// The recorded versions, as entries; later entries supersede earlier ones.
    pub closed spec fn records(&self) -> Seq<(String, SemVer, PackageRecord)> {
        self.packages@
    }

    /// The loadable artifacts, as entries; later entries supersede earlier ones.
    pub closed spec fn artifacts(&self) -> Seq<(String, SemVer, Package)> {
        self.artifacts@
    }

    /// An empty registry.
    pub fn empty() -> (r: Self)
        ensures
            r.records() == Seq::<(String, SemVer, PackageRecord)>::empty(),
            r.artifacts() == Seq::<(String, SemVer, Package)>::empty(),
    {
        HybridPackageRegistry { packages: Vec::new(), artifacts: Vec::new() }
    }

    /// The record of version `version` of package `name`, if registered.
    fn find_record(&self, name: &String, version: SemVer) -> (r: Option<&PackageRecord>)
        ensures
            match r {
                Some(rec) => spec_record(self.records(), name@, version) == Some(*rec),
                None => spec_record(self.records(), name@, version) is None,
            },
    {
        let mut i = self.packages.len();
        assert(self.packages@.take(i as int) =~= self.packages@);
        while i > 0
            invariant
                i <= self.packages@.len(),
                spec_record(self.packages@, name@, version) == spec_record(
                    self.packages@.take(i as int),
                    name@,
                    version,
                ),
            decreases i,
        {
            assert(self.packages@.take(i as int).drop_last() =~= self.packages@.take(i - 1));
            assert(self.packages@.take(i as int).last() == self.packages@[i - 1]);
            let entry = &self.packages[i - 1];
            if entry.0 == *name && entry.1 == version {
                return Some(&entry.2);
            }
            i -= 1;
        }
        assert(self.packages@.take(0) =~= Seq::<(String, SemVer, PackageRecord)>::empty());
        None
    }

    /// Whether version `version` of package `name` is registered.
    pub fn is_semver_available(&self, name: &String, version: SemVer) -> (r: bool)
        ensures
            r == spec_record(self.records(), name@, version) is Some,
    {
        self.find_record(name, version).is_some()
    }

    /// Installs a package artifact unless that version of the package is already registered
    /// under a different digest, and returns the installed version.
    ///
    /// The package's record (its pinned version and pinned dependencies) replaces any earlier
    /// record of the same version, and the artifact becomes loadable.
    pub fn install_if_missing(&mut self, package: Package) -> (r: Result<PackageVersion, InstallPackageError>)
        ensures
            spec_install_conflicts(old(self).records(), package) ==> {
                &&& r == Err::<PackageVersion, InstallPackageError>(
                    InstallPackageError::AlreadyInstalledWithDifferentDigest {
                        package: package.name,
                        version: spec_package_version(package),
                    },
                )
                &&& final(self).records() == old(self).records()
                &&& final(self).artifacts() == old(self).artifacts()
            },
            !spec_install_conflicts(old(self).records(), package) ==> {
                &&& r == Ok::<PackageVersion, InstallPackageError>(spec_package_version(package))
                &&& final(self).records().len() == old(self).records().len() + 1
                &&& final(self).records().drop_last() == old(self).records()
                &&& final(self).records().last().0 == package.name
                &&& final(self).records().last().1 == package.version
                &&& spec_record_of(package, final(self).records().last().2)
                &&& final(self).artifacts() == old(self).artifacts().push(
                    (package.name, package.version, package),
                )
            },
    {
        let version = PackageVersion { version: package.version, digest: Some(package.digest) };
        let conflict = match self.find_record(&package.name, package.version) {
            Some(prev) => match prev.version.digest {
                Some(prev_digest) => prev_digest != package.digest,
                None => false,
            },
            None => false,
        };
        if conflict {
            return Err(
                InstallPackageError::AlreadyInstalledWithDifferentDigest {
                    package: package.name.clone(),
                    version,
                },
            );
        }
        let mut dependencies: Vec<(String, PackageVersion)> = Vec::new();
        let mut i: usize = 0;
        while i < package.dependencies.len()
            invariant
                i <= package.dependencies@.len(),
                dependencies@.len() == i,
                forall|j: int|
                    0 <= j < i ==> (#[trigger] dependencies@[j]).0@ == package.dependencies@[j].name@
                        && dependencies@[j].1 == (PackageVersion {
                        version: package.dependencies@[j].version,
                        digest: Some(package.dependencies@[j].digest),
                    }),
            decreases package.dependencies@.len() - i,
        {
            let dep = &package.dependencies[i];
            dependencies.push(
                (dep.name.clone(), PackageVersion { version: dep.version, digest: Some(dep.digest) }),
            );
            i += 1;
        }
        let record = PackageRecord { version, dependencies };
        self.packages.push((package.name.clone(), package.version, record));
        let name = package.name.clone();
        let semver = package.version;
        self.artifacts.push((name, semver, package));
        Ok(version)
    }

    /// Registers a record of a package version that is not registered yet.
    pub fn register(&mut self, name: String, record: PackageRecord) -> (r: Result<(), RegisterError>)
        ensures
            spec_record(old(self).records(), name@, record.version.version) is Some ==> {
                &&& r == Err::<(), RegisterError>(
                    RegisterError::AlreadyRegistered { package: name, version: record.version.version },
                )
                &&& final(self).records() == old(self).records()
            },
            spec_record(old(self).records(), name@, record.version.version) is None ==> {
                &&& r is Ok
                &&& final(self).records() == old(self).records().push(
                    (name, record.version.version, record),
                )
            },
            final(self).artifacts() == old(self).artifacts(),
    {
        let version = record.version.version;
        if self.is_semver_available(&name, version) {
            return Err(RegisterError::AlreadyRegistered { package: name, version });
        }
        self.packages.push((name, version, record));
        Ok(())
    }

    /// Loads the artifact of version `version` of package `name`: an error when none is
    /// available, or when the requested digest is not the artifact's (a request without a digest
    /// never matches).
    pub fn load_package(&self, name: &String, version: PackageVersion) -> (r: Result<
        &Package,
        LoadPackageError,
    >)
        ensures
            match spec_artifact(self.artifacts(), name@, version.version) {
                Some(a) => if version.digest != Some(a.digest) {
                    r is Err && r->Err_0 == (LoadPackageError::DigestMismatch {
                        package: *name,
                        version,
                    })
                } else {
                    r is Ok && *r->Ok_0 == a
                },
                None => r is Err && r->Err_0 == (LoadPackageError::NotFound {
                    package: *name,
                    version,
                }),
            },
    {
        let mut i = self.artifacts.len();
        assert(self.artifacts@.take(i as int) =~= self.artifacts@);
        while i > 0
            invariant
                i <= self.artifacts@.len(),
                spec_artifact(self.artifacts@, name@, version.version) == spec_artifact(
                    self.artifacts@.take(i as int),
                    name@,
                    version.version,
                ),
            decreases i,
        {
            assert(self.artifacts@.take(i as int).drop_last() =~= self.artifacts@.take(i - 1));
            assert(self.artifacts@.take(i as int).last() == self.artifacts@[i - 1]);
            let entry = &self.artifacts[i - 1];
            if entry.0 == *name && entry.1 == version.version {
                let artifact = &entry.2;
                let matches = match version.digest {
                    Some(d) => d == artifact.digest,
                    None => false,
                };
                if !matches {
                    return Err(
                        LoadPackageError::DigestMismatch { package: name.clone(), version },
                    );
                }
                return Ok(artifact);
            }
            i -= 1;
        }
        assert(self.artifacts@.take(0) =~= Seq::<(String, SemVer, Package)>::empty());
        Err(LoadPackageError::NotFound { package: name.clone(), version })
    }
}

/// A package just installed loads back: the artifact of its name and version is that package.
pub proof fn lemma_install_then_load(
    artifacts: Seq<(String, SemVer, Package)>,
    p: Package,
)
    ensures
        spec_artifact(artifacts.push((p.name, p.version, p)), p.name@, p.version) == Some(p),
{
    assert(artifacts.push((p.name, p.version, p)).last() == (p.name, p.version, p));
}

/// Installing a package leaves every other package version's artifact as it was.
pub proof fn lemma_install_keeps_others(
    artifacts: Seq<(String, SemVer, Package)>,
    p: Package,
    name: Seq<char>,
    version: SemVer,
)
    requires
        name != p.name@ || version != p.version,
    ensures
        spec_artifact(artifacts.push((p.name, p.version, p)), name, version) == spec_artifact(
            artifacts,
            name,
            version,
        ),
{
    assert(artifacts.push((p.name, p.version, p)).drop_last() =~= artifacts);
}

/// A version registered (or installed) once is registered from then on: a second registration
/// of it is refused.
pub proof fn lemma_registered_stays_registered(
    packages: Seq<(String, SemVer, PackageRecord)>,
    name: String,
    version: SemVer,
    record: PackageRecord,
)
    ensures
        spec_record(packages.push((name, version, record)), name@, version) is Some,
{
    assert(packages.push((name, version, record)).last() == (name, version, record));
}

} // verus!
