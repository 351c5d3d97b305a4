//! WIT worlds for SDK-generated bindings: dependency interface selection, import-only world
//! rendering, and the component package identifier of a manifest.

use vstd::prelude::*;

verus! {

/// The result of `heck::ToKebabCase::to_kebab_case` on a string: its words (split at
/// non-alphanumeric characters and at changes of case), lower-cased and joined by `-`.
pub uninterp spec fn kebab_case(s: Seq<char>) -> Seq<char>;

/// Converts a name to kebab case with heck's `ToKebabCase::to_kebab_case`. The contract only
/// names the result: it is a function of the name alone, and what the conversion does is not
/// stated.
#[verifier::external_body]
pub(crate) fn to_kebab_case(s: &str) -> (r: String)
    ensures
        r@ == kebab_case(s@),
{
    heck::ToKebabCase::to_kebab_case(s)
}

/// The result of `heck::ToSnakeCase::to_snake_case` on a string: its words (split at
/// non-alphanumeric characters and at changes of case), lower-cased and joined by `_`.
pub uninterp spec fn snake_case(s: Seq<char>) -> Seq<char>;

/// Converts a name to snake case with heck's `ToSnakeCase::to_snake_case`. The contract only
/// names the result: it is a function of the name alone, and what the conversion does is not
/// stated.
#[verifier::external_body]
pub(crate) fn to_snake_case(s: &str) -> (r: String)
    ensures
        r@ == snake_case(s@),
{
    heck::ToSnakeCase::to_snake_case(s)
}

/// Exported dependency interface metadata derived from WIT.
#[derive(Debug)]
pub struct DependencyInterface {
    /// Kebab-case interface name as declared in the dependency WIT.
    pub name: String,
    /// Fully-qualified WIT import path, including package version.
    pub import: String,
    /// WIT type names owned by the imported interface.
    pub types: Vec<String>,
}

/// An interface as plain values: name, import path, and type names.
pub type DependencyInterfaceView = (Seq<char>, Seq<char>, Seq<String>);

impl View for DependencyInterface {
    type V = DependencyInterfaceView;

    open spec fn view(&self) -> DependencyInterfaceView {
        (self.name@, self.import@, self.types@)
    }
}

impl Clone for DependencyInterface {
    fn clone(&self) -> (r: Self)
        ensures
            r@ == self@,
    {
        let types = self.types.clone();
        assert(types@ =~= self.types@);
        DependencyInterface { name: self.name.clone(), import: self.import.clone(), types }
    }
}

/// Resolved metadata for one Miden package dependency.
#[derive(Debug)]
pub struct MidenDependency {
    /// Manifest key used for this dependency.
    pub name: String,
    /// Canonical project root or precompiled package path.
    pub root: String,
    /// Exported WIT interfaces loaded from the dependency metadata.
    pub interfaces: Vec<DependencyInterface>,
}

/// A dependency narrowed to one selected exported interface.
#[derive(Debug)]
pub struct SelectedDependency {
    /// Manifest key used for this dependency.
    pub name: String,
    /// Canonical project root or precompiled package path.
    pub root: String,
    /// The selected exported WIT interface.
    pub interface: DependencyInterface,
}

impl MidenDependency {
    /// Narrows this dependency to the first exported interface with the given kebab-case name.
    pub fn select(&self, interface_name: &str) -> (r: Option<SelectedDependency>)
        ensures
            match r {
                Some(s) => {
                    &&& s.name == self.name
                    &&& s.root == self.root
                    &&& exists|i: int|
                        0 <= i < self.interfaces@.len() && s.interface@ == self.interfaces@[i]@
                            && (#[trigger] self.interfaces@[i]).name@ == interface_name@ && forall|
                            j: int,
                        | 0 <= j < i ==> (#[trigger] self.interfaces@[j]).name@ != interface_name@
                },
                None => forall|i: int|
                    0 <= i < self.interfaces@.len() ==> (#[trigger] self.interfaces@[i]).name@
                        != interface_name@,
            },
    {
        let wanted = String::from_str(interface_name);
        let mut i: usize = 0;
        while i < self.interfaces.len()
            invariant
                i <= self.interfaces@.len(),
                wanted@ == interface_name@,
                forall|j: int| 0 <= j < i ==> (#[trigger] self.interfaces@[j]).name@ != interface_name@,
            decreases self.interfaces@.len() - i,
        {
            let interface = &self.interfaces[i];
            if interface.name == wanted {
                return Some(
                    SelectedDependency {
                        name: self.name.clone(),
                        root: self.root.clone(),
                        interface: interface.clone(),
                    },
                );
            }
            i += 1;
        }
        None
    }

    /// Names of the interfaces exported by this dependency, for diagnostics.
    pub fn interface_names(&self) -> (r: Vec<&str>)
        ensures
            r@.len() == self.interfaces@.len(),
            forall|i: int| 0 <= i < r@.len() ==> (#[trigger] r@[i])@ == self.interfaces@[i].name@,
    {
        let mut r: Vec<&str> = Vec::new();
        let mut i: usize = 0;
        while i < self.interfaces.len()
            invariant
                i <= self.interfaces@.len(),
                r@.len() == i,
                forall|j: int| 0 <= j < i ==> (#[trigger] r@[j])@ == self.interfaces@[j].name@,
            decreases self.interfaces@.len() - i,
        {
            r.push(self.interfaces[i].name.as_str());
            i += 1;
        }
        r
    }
}

impl SelectedDependency {
    /// Fully-qualified WIT import path, including package version.
    pub fn import(&self) -> (r: &str)
        ensures
            r@ == self.interface.import@,
    {
        self.interface.import.as_str()
    }

    /// WIT type names declared by the selected dependency interface.
    pub fn type_names(&self) -> (r: &[String])
        ensures
            r@ == self.interface.types@,
    {
        self.interface.types.as_slice()
    }
}

/// The import lines of a WIT world, one per import, each indented by four spaces.
pub open spec fn spec_import_lines(imports: Seq<String>) -> Seq<char>
    decreases imports.len(),
{
    if imports.len() == 0 {
        Seq::empty()
    } else {
        spec_import_lines(imports.drop_last()) + "    import "@ + imports.last()@ + ";\n"@
    }
}

/// A standalone WIT package `miden:{name}@1.0.0` whose single world `{name}` imports the given
/// interfaces.
pub open spec fn spec_import_world_wit(name: Seq<char>, imports: Seq<String>) -> Seq<char> {
    "package miden:"@ + name + "@1.0.0;\n\nworld "@ + name + " {\n"@ + spec_import_lines(imports)
        + "}\n"@
}

/// Renders a standalone inline WIT package whose single world imports the given interfaces.
pub fn import_world_wit(name: &str, imports: &[String]) -> (r: String)
    ensures
        r@ == spec_import_world_wit(name@, imports@),
{
    let mut tokens = String::from_str("package miden:");
    tokens.append(name);
    tokens.append("@1.0.0;\n\nworld ");
    tokens.append(name);
    tokens.append(" {\n");
    let ghost header = tokens@;
    let mut i: usize = 0;
    assert(imports@.take(0) =~= Seq::<String>::empty());
    while i < imports.len()
        invariant
            i <= imports@.len(),
            tokens@ == header + spec_import_lines(imports@.take(i as int)),
        decreases imports@.len() - i,
    {
        assert(imports@.take(i + 1).drop_last() =~= imports@.take(i as int));
        assert(imports@.take(i + 1).last() == imports@[i as int]);
        tokens.append("    import ");
        tokens.append(imports[i].as_str());
        tokens.append(";\n");
        i += 1;
    }
    assert(imports@.take(imports@.len() as int) =~= imports@);
    tokens.append("}\n");
    tokens
}

/// The component package identifier of a package whose name in kebab case is `kebab_name`.
pub fn component_package_id(kebab_name: &str) -> (r: String)
    ensures
        r@ == "miden:"@ + kebab_name@,
{
    String::from_str("miden:").concat(kebab_name)
}

/// Package metadata of the consuming crate, as far as SDK bindings need it.
#[derive(Debug)]
pub struct ManifestPackage {
    /// The Miden project package name.
    pub package_name: String,
    /// `package.metadata.miden.project-kind` from `Cargo.toml`, if set.
    pub project_kind: Option<String>,
}

impl ManifestPackage {
    /// The declared component package identifier: `miden:` followed by the package name in
    /// kebab case.
    pub fn component_package(&self) -> (r: String)
        ensures
            r@ == "miden:"@ + kebab_case(self.package_name@),
    {
        let kebab = to_kebab_case(self.package_name.as_str());
        component_package_id(kebab.as_str())
    }

    /// Whether Cargo metadata declares this crate as an authentication component.
    pub fn requires_auth_script(&self) -> (r: bool)
        ensures
            r == (self.project_kind is Some && self.project_kind->Some_0@
                == "authentication-component"@),
    {
        match &self.project_kind {
            Some(kind) => *kind == String::from_str("authentication-component"),
            None => false,
        }
    }
}

/// The components of a path as plain values.
pub open spec fn path_view(p: Seq<String>) -> Seq<Seq<char>> {
    p.map_values(|c: String| c@)
}

/// Copies a path given as its components.
fn clone_path(p: &Vec<String>) -> (r: Vec<String>)
    ensures
        path_view(r@) == path_view(p@),
{
    let r = p.clone();
    assert(r@ =~= p@);
    r
}

/// Returns the WIT paths searched for generated dependency metadata, each given as its
/// components: the root itself when it is a file; otherwise the root, its `wit` directory, and
/// its `target/generated-wit` directory.
pub fn dependency_wit_candidate_paths(root: &Vec<String>, root_is_file: bool) -> (r: Vec<
    Vec<String>,
>)
    ensures
        root_is_file ==> r@.len() == 1 && path_view(r@[0]@) == path_view(root@),
        !root_is_file ==> {
            &&& r@.len() == 3
            &&& path_view(r@[0]@) == path_view(root@)
            &&& path_view(r@[1]@) == path_view(root@).push("wit"@)
            &&& path_view(r@[2]@) == path_view(root@).push("target"@).push("generated-wit"@)
        },
{
    let mut paths: Vec<Vec<String>> = Vec::new();
    paths.push(clone_path(root));
    if !root_is_file {
        let mut wit = clone_path(root);
        wit.push(String::from_str("wit"));
        assert(path_view(wit@) =~= path_view(root@).push("wit"@));
        paths.push(wit);
        let mut generated = clone_path(root);
        generated.push(String::from_str("target"));
        generated.push(String::from_str("generated-wit"));
        assert(path_view(generated@) =~= path_view(root@).push("target"@).push("generated-wit"@));
        paths.push(generated);
    }
    paths
}

/// `'{d}'` for each of `ds`, joined by `, `.
pub open spec fn spec_quoted_list(ds: Seq<String>) -> Seq<char>
    decreases ds.len(),
{
    if ds.len() == 0 {
        Seq::empty()
    } else {
        spec_quoted_list(ds.drop_last()) + (if ds.len() > 1 {
            ", "@
        } else {
            Seq::empty()
        }) + "'"@ + ds.last()@ + "'"@
    }
}

/// The diagnostic for a dependency whose WIT metadata could not be loaded.
pub open spec fn spec_dependency_wit_error_message(
    dependency: Seq<char>,
    dependency_root: Seq<char>,
    wit_root: Seq<char>,
    details: Seq<char>,
    candidates: Seq<String>,
) -> Seq<char> {
    "failed to load dependency WIT metadata for dependency '"@ + dependency
        + "' (dependency root '"@ + dependency_root + "', WIT root '"@ + wit_root + "'): "@
        + details
        + ". The SDK macro needs the dependency's generated WIT during Rust macro expansion to construct dependency imports. Searched for WIT world definitions in: "@
        + spec_quoted_list(candidates)
        + ". Generate the dependency WIT by compiling the dependency component, or set package.metadata.miden.dependencies."@
        + dependency + ".wit to the generated WIT file or directory."@
}

/// Formats the dependency WIT diagnostic emitted by SDK macros: the dependency, its roots, what
/// went wrong, and the candidate WIT paths that were searched (given as displayed paths).
pub fn dependency_wit_error_message(
    dependency: &str,
    dependency_root: &str,
    wit_root: &str,
    details: &str,
    candidates: &[String],
) -> (r: String)
    ensures
        r@ == spec_dependency_wit_error_message(
            dependency@,
            dependency_root@,
            wit_root@,
            details@,
            candidates@,
        ),
{
    let mut list = String::new();
    let mut i: usize = 0;
    assert(candidates@.take(0) =~= Seq::<String>::empty());
    while i < candidates.len()
        invariant
            i <= candidates@.len(),
            list@ == spec_quoted_list(candidates@.take(i as int)),
        decreases candidates@.len() - i,
    {
        assert(candidates@.take(i + 1).drop_last() =~= candidates@.take(i as int));
        assert(candidates@.take(i + 1).last() == candidates@[i as int]);
        if i > 0 {
            list.append(", ");
        } else {
            assert(list@ + Seq::<char>::empty() =~= list@);
        }
        list.append("'");
        list.append(candidates[i].as_str());
        list.append("'");
        i += 1;
    }
    assert(candidates@.take(candidates@.len() as int) =~= candidates@);
    let mut message = String::from_str("failed to load dependency WIT metadata for dependency '");
    message.append(dependency);
    message.append("' (dependency root '");
    message.append(dependency_root);
    message.append("', WIT root '");
    message.append(wit_root);
    message.append("'): ");
    message.append(details);
    message.append(
        ". The SDK macro needs the dependency's generated WIT during Rust macro expansion to construct dependency imports. Searched for WIT world definitions in: ",
    );
    message.append(list.as_str());
    message.append(
        ". Generate the dependency WIT by compiling the dependency component, or set package.metadata.miden.dependencies.",
    );
    message.append(dependency);
    message.append(".wit to the generated WIT file or directory.");
    message
}

/// WIT metadata extracted from a dependency package.
#[derive(Debug)]
pub struct DependencyWit {
    /// The exported interfaces, in declaration order.
    pub interfaces: Vec<DependencyInterface>,
}

/// What probing one candidate WIT path gave.
#[derive(Debug)]
pub enum WitProbe {
    /// The path does not exist.
    Missing,
    /// The path was parsed but exports no interface.
    NoInterfaces,
    /// The path was parsed and exports interfaces.
    Found(DependencyWit),
    /// Parsing the path failed, with the parser's message.
    Failed(String),
}

/// The search of a dependency directory's candidate WIT paths for a world exporting interfaces:
/// the parser errors met so far.
pub struct WitSearch {
    errors: Vec<String>,
}

impl View for WitSearch {
    type V = Seq<String>;

    closed spec fn view(&self) -> Seq<String> {
        self.errors@
    }
}

/// `ds` joined by `; `.
pub open spec fn spec_join_errors(ds: Seq<String>) -> Seq<char>
    decreases ds.len(),
{
    if ds.len() == 0 {
        Seq::empty()
    } else {
        spec_join_errors(ds.drop_last()) + (if ds.len() > 1 {
            "; "@
        } else {
            Seq::empty()
        }) + ds.last()@
    }
}

/// The error of a search that found no world: plain, or with the parser errors met.
pub open spec fn spec_search_failure(errors: Seq<String>) -> Seq<char> {
    if errors.len() == 0 {
        "no WIT world definition found"@
    } else {
        "no WIT world definition found; parser errors: "@ + spec_join_errors(errors)
    }
}

impl WitSearch {
    /// A search that has met no parser error yet.
    pub fn new() -> (r: Self)
        ensures
            r@ == Seq::<String>::empty(),
    {
        WitSearch { errors: Vec::new() }
    }

    /// Records what probing the candidate path displayed as `path` gave. Returns the metadata
    /// when the candidate exports interfaces, which ends the search; a parser failure is
    /// remembered as `'{path}': {message}`.
    pub fn record(&mut self, path: &str, probe: WitProbe) -> (r: Option<DependencyWit>)
        ensures
            match probe {
                WitProbe::Found(w) => r == Some(w) && final(self)@ == old(self)@,
                WitProbe::Failed(m) => r is None && final(self)@.len() == old(self)@.len() + 1
                    && final(self)@.drop_last() == old(self)@ && final(self)@.last()@ == "'"@
                    + path@ + "': "@ + m@,
                _ => r is None && final(self)@ == old(self)@,
            },
    {
        match probe {
            WitProbe::Found(info) => Some(info),
            WitProbe::Failed(err) => {
                let message = String::from_str("'").concat(path).concat("': ").concat(
                    err.as_str(),
                );
                let ghost before = self.errors@;
                self.errors.push(message);
                assert(self.errors@.drop_last() =~= before);
                None
            },
            _ => None,
        }
    }

    /// The error of a search that found no world.
    pub fn finish(self) -> (r: String)
        ensures
            r@ == spec_search_failure(self@),
    {
        if self.errors.len() == 0 {
            return String::from_str("no WIT world definition found");
        }
        let mut joined = String::new();
        let mut i: usize = 0;
        assert(self.errors@.take(0) =~= Seq::<String>::empty());
        while i < self.errors.len()
            invariant
                i <= self.errors@.len(),
                joined@ == spec_join_errors(self.errors@.take(i as int)),
            decreases self.errors@.len() - i,
        {
            assert(self.errors@.take(i + 1).drop_last() =~= self.errors@.take(i as int));
            assert(self.errors@.take(i + 1).last() == self.errors@[i as int]);
            if i > 0 {
                joined.append("; ");
            } else {
                assert(joined@ + Seq::<char>::empty() =~= joined@);
            }
            joined.append(self.errors[i].as_str());
            i += 1;
        }
        assert(self.errors@.take(self.errors@.len() as int) =~= self.errors@);
        String::from_str("no WIT world definition found; parser errors: ").concat(joined.as_str())
    }
}

/// The metadata of a dependency whose WIT root is a file, from what parsing that file gave: an
/// error when it exports no interface.
pub fn parse_dependency_wit_file(root: &str, parsed: Result<Option<DependencyWit>, String>) -> (r:
    Result<DependencyWit, String>)
    ensures
        match parsed {
            Ok(Some(w)) => r == Ok::<DependencyWit, String>(w),
            Ok(None) => r is Err && r->Err_0@ == "WIT file '"@ + root@
                + "' does not contain a world export"@,
            Err(m) => r == Err::<DependencyWit, String>(m),
        },
{
    match parsed {
        Ok(Some(info)) => Ok(info),
        Ok(None) => Err(
            String::from_str("WIT file '").concat(root).concat("' does not contain a world export"),
        ),
        Err(err) => Err(err),
    }
}

} // verus!
