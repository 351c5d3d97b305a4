//! Compiler sessions: the name of the artifact a session produces.

use vstd::prelude::*;

use crate::cargo::{clone_components, components_view, parent_components, spec_parent, TargetType};

verus! {

/// Where a session's input comes from, with the parts of its name that naming the artifact
/// reads.
#[derive(Clone, Debug, PartialEq, Eq)]
pub enum InputName {
    /// A file on disk.
    Real {
        /// The file stem of its path, if it has one.
        stem: Option<String>,
        /// The extension of its path, if it has one.
        extension: Option<String>,
    },
    /// Standard input (or an in-memory input).
    Stdin {
        /// The name given to the input.
        name: String,
        /// The file stem of that name.
        filestem: String,
        /// The file stem of the current directory, if it has one.
        current_dir_stem: Option<String>,
    },
}

/// Whether an input name cannot name the artifact on its own (`empty` or `stdin`).
pub open spec fn spec_is_placeholder_name(name: Seq<char>) -> bool {
    name == "empty"@ || name == "stdin"@
}

/// The name of a session's artifact: the name given, else the output file's stem, else the
/// input's file stem (or extension); standard input named `empty` or `stdin` is named after the
/// current directory when it has a stem.
pub open spec fn spec_session_name(
    given: Option<String>,
    output_stem: Option<String>,
    input: InputName,
) -> Seq<char> {
    match given {
        Some(n) => n@,
        None => match output_stem {
            Some(s) => s@,
            None => match input {
                InputName::Real { stem, extension } => match stem {
                    Some(s) => s@,
                    None => extension->Some_0@,
                },
                InputName::Stdin { name, filestem, current_dir_stem } => if spec_is_placeholder_name(
                    name@,
                ) {
                    match current_dir_stem {
                        Some(d) => d@,
                        None => name@,
                    }
                } else {
                    filestem@
                },
            },
        },
    }
}

/// Names the artifact of a session that does not come from a project manifest. A real input
/// path must have a file stem or an extension when nothing else names the artifact.
pub fn session_name(given: &Option<String>, output_stem: &Option<String>, input: &InputName) -> (r:
    String)
    requires
        given is None && output_stem is None && input is Real ==> input->stem is Some
            || input->extension is Some,
    ensures
        r@ == spec_session_name(*given, *output_stem, *input),
{
    if let Some(name) = given {
        return name.clone();
    }
    if let Some(stem) = output_stem {
        return stem.clone();
    }
    match input {
        InputName::Real { stem, extension } => match stem {
            Some(s) => s.clone(),
            None => match extension {
                Some(e) => e.clone(),
                None => String::new(),
            },
        },
        InputName::Stdin { name, filestem, current_dir_stem } => {
            let placeholder = *name == String::from_str("empty") || *name == String::from_str(
                "stdin",
            );
            if placeholder {
                match current_dir_stem {
                    Some(d) => d.clone(),
                    None => name.clone(),
                }
            } else {
                filestem.clone()
            }
        },
    }
}


/// A dependency of a project: the package depended on, the version requirement, and whether it
/// is linked dynamically.
#[derive(Debug)]
pub struct ProjectDependency {
    /// The name of the package depended on.
    pub name: String,
    /// The semantic version requirement, in its textual form.
    pub version_requirement: String,
    /// Whether the dependency is linked dynamically.
    pub dynamic: bool,
}

/// The single package of the project a session builds for an input that is not a project
/// manifest.
#[derive(Debug)]
pub struct DefaultPackage {
    /// The package name: the session's name.
    pub name: String,
    /// The kind of its target; when none is given the project's default kind applies.
    pub target_type: Option<TargetType>,
    /// The name of its target: the session's name.
    pub target_name: String,
    /// The source of its target: the input's URI.
    pub source: String,
    /// Its dependencies.
    pub dependencies: Vec<ProjectDependency>,
}

/// The package a session builds for an input that is not a project manifest: one package named
/// after the session, with one target of the same name whose source is the input, depending on
/// the core library (`miden-core`, any version, linked dynamically), which is always linked.
pub fn default_package(name: &str, target_type: Option<TargetType>, source: &str) -> (r: DefaultPackage)
    ensures
        r.name@ == name@,
        r.target_type == target_type,
        r.target_name@ == name@,
        r.source@ == source@,
        r.dependencies@.len() == 1,
        r.dependencies@[0].name@ == "miden-core"@,
        r.dependencies@[0].version_requirement@ == "*"@,
        r.dependencies@[0].dynamic,
{
    let mut dependencies: Vec<ProjectDependency> = Vec::new();
    dependencies.push(
        ProjectDependency {
            name: String::from_str("miden-core"),
            version_requirement: String::from_str("*"),
            dynamic: true,
        },
    );
    DefaultPackage {
        name: String::from_str(name),
        target_type,
        target_name: String::from_str(name),
        source: String::from_str(source),
        dependencies,
    }
}

/// Whether a path, by components, is absolute: it starts at the root `/`.
pub open spec fn spec_is_absolute(p: Seq<Seq<char>>) -> bool {
    p.len() > 0 && p[0] == "/"@
}

/// `p` without the leading components `base`, when `base` is a prefix of it.
pub open spec fn spec_strip_prefix(p: Seq<Seq<char>>, base: Seq<Seq<char>>) -> Option<Seq<Seq<char>>> {
    if base.len() <= p.len() && p.take(base.len() as int) == base {
        Some(p.skip(base.len() as int))
    } else {
        None
    }
}

/// The replacement of the session's project source directory in debug information: for an
/// absolute input path, the path relative to the working directory, else its parent; for a
/// relative one, its parent.
pub open spec fn spec_remap_target(path: Seq<Seq<char>>, current_dir: Seq<Seq<char>>) -> Option<
    Seq<Seq<char>>,
> {
    if spec_is_absolute(path) {
        match spec_strip_prefix(path, current_dir) {
            Some(rest) => Some(rest),
            None => spec_parent(path),
        }
    } else {
        spec_parent(path)
    }
}

/// The path-prefix rewrite a session adds for an input file at `path`: the project source
/// directory `temp_dir/name/src`, which the session builds in, is rewritten to the input's own
/// location (see `spec_remap_target`). All paths are by components.
pub fn session_remap_prefix(temp_dir: &[String], name: &str, path: &[String], current_dir: &[String]) -> (r: (
    Vec<String>,
    Option<Vec<String>>,
))
    requires
        spec_is_absolute(components_view(path@)) ==> spec_remap_target(
            components_view(path@),
            components_view(current_dir@),
        ) is Some,
    ensures
        components_view(r.0@) == components_view(temp_dir@).push(name@).push("src"@),
        match spec_remap_target(components_view(path@), components_view(current_dir@)) {
            Some(t) => r.1 is Some && components_view(r.1->Some_0@) == t,
            None => r.1 is None,
        },
{
    let mut from = clone_components(temp_dir);
    from.push(String::from_str(name));
    from.push(String::from_str("src"));
    assert(components_view(from@) =~= components_view(temp_dir@).push(name@).push("src"@));
    let ghost pv = components_view(path@);
    let ghost cv = components_view(current_dir@);
    let root = String::from_str("/");
    let absolute = path.len() > 0 && path[0] == root;
    proof {
        reveal_strlit("/");
    }
    assert(absolute == spec_is_absolute(pv));
    let to = if absolute {
        match strip_prefix(path, current_dir) {
            Some(rest) => Some(rest),
            None => parent_components(path),
        }
    } else {
        parent_components(path)
    };
    (from, to)
}

/// `p` without the leading components `base`, when `base` is a prefix of it.
fn strip_prefix(p: &[String], base: &[String]) -> (r: Option<Vec<String>>)
    ensures
        match spec_strip_prefix(components_view(p@), components_view(base@)) {
            Some(rest) => r is Some && components_view(r->Some_0@) == rest,
            None => r is None,
        },
{
    let ghost pv = components_view(p@);
    let ghost bv = components_view(base@);
    if base.len() > p.len() {
        return None;
    }
    let mut i: usize = 0;
    while i < base.len()
        invariant
            i <= base@.len() <= p@.len(),
            pv == components_view(p@),
            bv == components_view(base@),
            forall|k: int| 0 <= k < i ==> pv[k] == bv[k],
        decreases base@.len() - i,
    {
        if p[i] != base[i] {
            assert(pv.take(bv.len() as int)[i as int] != bv[i as int]);
            return None;
        }
        i += 1;
    }
    assert(pv.take(bv.len() as int) =~= bv);
    let mut rest: Vec<String> = Vec::new();
    let mut j: usize = base.len();
    while j < p.len()
        invariant
            base@.len() <= j <= p@.len(),
            pv == components_view(p@),
            components_view(rest@) == pv.subrange(base@.len() as int, j as int),
        decreases p@.len() - j,
    {
        let ghost before = rest@;
        rest.push(p[j].clone());
        assert(components_view(rest@) =~= components_view(before).push(pv[j as int]));
        assert(pv.subrange(base@.len() as int, j + 1) =~= pv.subrange(base@.len() as int, j as int).push(
            pv[j as int],
        ));
        j += 1;
    }
    assert(pv.skip(bv.len() as int) =~= pv.subrange(base@.len() as int, p@.len() as int));
    Some(rest)
}

} // verus!
