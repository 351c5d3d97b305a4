//! Cargo-based builds: the `cargo build` command line, and the compiler options implied by a
//! project's targets (entrypoint selection).

use vstd::prelude::*;
use vstd::string::*;

verus! {

/// Cargo-specific options forwarded to `cargo build`.
#[derive(Clone, Debug, Default)]
pub struct CargoOptions {
    /// Build with the release profile.
    pub release: bool,
    /// The `Cargo.toml` to build, if not the current directory's.
    pub manifest_path: Option<String>,
    /// Build every member of the workspace.
    pub workspace: bool,
    /// The packages to build.
    pub packages: Vec<String>,
}

/// The views of a list of strings.
pub open spec fn strings_view(v: Seq<String>) -> Seq<Seq<char>> {
    v.map_values(|s: String| s@)
}

/// The flags building the standard library for the Miden target.
pub open spec fn spec_build_std_args() -> Seq<Seq<char>> {
    seq![
        "-Z"@,
        "build-std=core,alloc,panic_abort"@,
        "-Z"@,
        "build-std-features=optimize_for_size"@,
    ]
}

/// The profile settings passed as `--config key=value` pairs.
pub open spec fn spec_profile_config_args() -> Seq<Seq<char>> {
    seq![
        "--config"@,
        "profile.dev.panic"@ + "="@ + "\"abort\""@,
        "--config"@,
        "profile.dev.opt-level"@ + "="@ + "1"@,
        "--config"@,
        "profile.dev.overflow-checks"@ + "="@ + "false"@,
        "--config"@,
        "profile.dev.debug"@ + "="@ + "true"@,
        "--config"@,
        "profile.dev.debug-assertions"@ + "="@ + "false"@,
        "--config"@,
        "profile.release.opt-level"@ + "="@ + "\"s\""@,
        "--config"@,
        "profile.release.lto"@ + "="@ + "true"@,
        "--config"@,
        "profile.release.codegen-units"@ + "="@ + "1"@,
        "--config"@,
        "profile.release.panic"@ + "="@ + "\"abort\""@,
    ]
}

/// `--package NAME` for each package, in order.
pub open spec fn spec_package_args(packages: Seq<String>) -> Seq<Seq<char>>
    decreases packages.len(),
{
    if packages.len() == 0 {
        Seq::empty()
    } else {
        spec_package_args(packages.drop_last()) + seq!["--package"@, packages.last()@]
    }
}

/// The arguments of the `cargo build` invocation for the given options.
pub open spec fn spec_cargo_args(opts: CargoOptions) -> Seq<Seq<char>> {
    seq!["build"@] + spec_build_std_args() + spec_profile_config_args() + (if opts.release {
        seq!["--release"@]
    } else {
        Seq::empty()
    }) + match opts.manifest_path {
        Some(p) => seq!["--manifest-path"@, p@],
        None => Seq::empty(),
    } + (if opts.workspace {
        seq!["--workspace"@]
    } else {
        Seq::empty()
    }) + spec_package_args(opts.packages@)
}

/// Appends a string to an argument list.
fn push_arg(args: &mut Vec<String>, arg: &str)
    ensures
        strings_view(final(args)@) == strings_view(old(args)@).push(arg@),
{
    args.push(String::from_str(arg));
    assert(strings_view(args@) =~= strings_view(old(args)@).push(arg@));
}

/// Appends `--config key=value` to an argument list.
fn push_config(args: &mut Vec<String>, key: &str, value: &str)
    ensures
        strings_view(final(args)@) == strings_view(old(args)@).push("--config"@).push(
            key@ + "="@ + value@,
        ),
{
    push_arg(args, "--config");
    let pair = String::from_str(key).concat("=").concat(value);
    args.push(pair);
    assert(strings_view(args@) =~= strings_view(old(args)@).push("--config"@).push(
        key@ + "="@ + value@,
    ));
}

/// Builds the argument vector for the underlying `cargo build` invocation: `build`, the
/// build-std flags, the profile settings, then the forwarded cargo options.
pub fn build_cargo_args(cargo_opts: &CargoOptions) -> (r: Vec<String>)
    ensures
        strings_view(r@) == spec_cargo_args(*cargo_opts),
{
    let mut args: Vec<String> = Vec::new();
    push_arg(&mut args, "build");
    // Build-std flags required for Miden compilation.
    push_arg(&mut args, "-Z");
    push_arg(&mut args, "build-std=core,alloc,panic_abort");
    push_arg(&mut args, "-Z");
    push_arg(&mut args, "build-std-features=optimize_for_size");
    // Profile settings.
    push_config(&mut args, "profile.dev.panic", "\"abort\"");
    push_config(&mut args, "profile.dev.opt-level", "1");
    push_config(&mut args, "profile.dev.overflow-checks", "false");
    push_config(&mut args, "profile.dev.debug", "true");
    push_config(&mut args, "profile.dev.debug-assertions", "false");
    push_config(&mut args, "profile.release.opt-level", "\"s\"");
    push_config(&mut args, "profile.release.lto", "true");
    push_config(&mut args, "profile.release.codegen-units", "1");
    push_config(&mut args, "profile.release.panic", "\"abort\"");
    let ghost fixed = strings_view(args@);
    assert(fixed =~= seq!["build"@] + spec_build_std_args() + spec_profile_config_args());
    // Cargo-specific options.
    if cargo_opts.release {
        push_arg(&mut args, "--release");
    }
    if let Some(manifest_path) = &cargo_opts.manifest_path {
        push_arg(&mut args, "--manifest-path");
        push_arg(&mut args, manifest_path.as_str());
    }
    if cargo_opts.workspace {
        push_arg(&mut args, "--workspace");
    }
    let ghost before_packages = strings_view(args@);
    let mut i: usize = 0;
    assert(cargo_opts.packages@.take(0) =~= Seq::<String>::empty());
    while i < cargo_opts.packages.len()
        invariant
            i <= cargo_opts.packages@.len(),
            strings_view(args@) == before_packages + spec_package_args(
                cargo_opts.packages@.take(i as int),
            ),
        decreases cargo_opts.packages@.len() - i,
    {
        assert(cargo_opts.packages@.take(i + 1).drop_last() =~= cargo_opts.packages@.take(
            i as int,
        ));
        assert(cargo_opts.packages@.take(i + 1).last() == cargo_opts.packages@[i as int]);
        push_arg(&mut args, "--package");
        push_arg(&mut args, cargo_opts.packages[i].as_str());
        i += 1;
    }
    assert(cargo_opts.packages@.take(cargo_opts.packages@.len() as int) =~= cargo_opts.packages@);
    args
}

/// The ASCII lower case of a character; other characters are unchanged.
pub open spec fn ascii_lower(c: char) -> char {
    if 'A' <= c && c <= 'Z' {
        ((c as u32) + 32) as char
    } else {
        c
    }
}

/// Two strings are equal when ASCII letters are compared without regard to case.
pub open spec fn spec_eq_ignore_ascii_case(a: Seq<char>, b: Seq<char>) -> bool {
    a.len() == b.len() && forall|i: int| 0 <= i < a.len() ==> ascii_lower(a[i]) == ascii_lower(b[i])
}

/// The code of a character's ASCII lower case.
fn ascii_lower_code(c: char) -> (r: u32)
    ensures
        r == ascii_lower(c) as u32,
{
    if 'A' <= c && c <= 'Z' {
        (c as u32) + 32
    } else {
        c as u32
    }
}

/// Compares two strings, ASCII letters without regard to case.
fn eq_ignore_ascii_case(a: &str, b: &str) -> (r: bool)
    ensures
        r == spec_eq_ignore_ascii_case(a@, b@),
{
    let n = a.unicode_len();
    if n != b.unicode_len() {
        return false;
    }
    let mut i: usize = 0;
    while i < n
        invariant
            i <= n,
            n == a@.len(),
            n == b@.len(),
            forall|k: int| 0 <= k < i ==> ascii_lower(a@[k]) == ascii_lower(b@[k]),
        decreases n - i,
    {
        let ca = a.get_char(i);
        let cb = b.get_char(i);
        if ascii_lower_code(ca) != ascii_lower_code(cb) {
            assert(ascii_lower(a@[i as int]) != ascii_lower(b@[i as int]));
            return false;
        }
        assert(ascii_lower(ca) == ascii_lower(cb));
        i += 1;
    }
    true
}

/// Whether an input file is a Cargo project: a real file named `Cargo.toml`, ignoring ASCII
/// case. `file_name` is the input path's file name; `None` for standard input or a path
/// without one.
pub fn is_cargo_project_input(file_name: Option<&str>) -> (r: bool)
    ensures
        r == (file_name is Some && spec_eq_ignore_ascii_case(file_name->Some_0@, "Cargo.toml"@)),
{
    match file_name {
        Some(name) => eq_ignore_ascii_case(name, "Cargo.toml"),
        None => false,
    }
}

/// The `-` characters of a string replaced by `_`.
pub open spec fn spec_replace_hyphens(s: Seq<char>) -> Seq<char> {
    s.map_values(|c: char| if c == '-' { '_' } else { c })
}

/// Replaces every `-` of a string by `_`, with `str::replace`.
#[verifier::external_body]
fn replace_hyphens(s: &str) -> (r: String)
    ensures
        r@ == spec_replace_hyphens(s@),
{
    s.replace('-', "_")
}

/// The kind of a project target.
#[derive(Clone, Copy, Debug, PartialEq, Eq)]
pub enum TargetType {
    /// An executable program.
    Executable,
    /// A kernel.
    Kernel,
    /// A library.
    Library,
    /// An account component.
    AccountComponent,
    /// A note script.
    Note,
    /// A transaction script.
    TransactionScript,
    /// Any other kind of target.
    Other,
}

/// A rewrite of a source path prefix in debug information.
#[derive(Clone, Debug, PartialEq, Eq)]
pub struct RemapPathPrefix {
    /// The prefix to rewrite.
    pub from: String,
    /// Its replacement; `None` strips the prefix.
    pub to: Option<String>,
}

/// A path-prefix rewrite as plain values.
pub open spec fn remap_view(r: RemapPathPrefix) -> (Seq<char>, Option<Seq<char>>) {
    (
        r.from@,
        match r.to {
            Some(t) => Some(t@),
            None => None,
        },
    )
}

/// The views of a list of path-prefix rewrites.
pub open spec fn remaps_view(v: Seq<RemapPathPrefix>) -> Seq<(Seq<char>, Option<Seq<char>>)> {
    v.map_values(|r: RemapPathPrefix| remap_view(r))
}

/// The options that select a build target and its entrypoint.
#[derive(Clone, Debug)]
pub struct TargetOptions {
    /// Whether debug information is emitted.
    pub debug: bool,
    /// Rewrites of source path prefixes in debug information.
    pub remap_path_prefixes: Vec<RemapPathPrefix>,
    /// The fully-qualified entrypoint procedure, if chosen.
    pub entrypoint: Option<String>,
    /// The requested kind of target.
    pub target_type: Option<TargetType>,
    /// The requested target name.
    pub target: Option<String>,
}

/// The entrypoint of the transaction-script target.
pub open spec fn spec_transaction_script_entrypoint() -> Seq<char> {
    "miden:base/transaction-script@1.0.0::run"@
}

/// The message of a request for an executable target that does not exist.
pub open spec fn spec_no_such_target_message(name: Seq<char>) -> Seq<char> {
    "no executable target name '"@ + name + "'"@
}

/// The message of an executable-target selection that needs `--target`.
pub open spec fn spec_ambiguous_target_message() -> Seq<char> {
    "ambiguous executable target selection: use --target to select a specific executable target"@
}

/// The position of the first of `targets` named `name`, if any.
pub open spec fn spec_first_named(targets: Seq<String>, name: Seq<char>) -> Option<int>
    decreases targets.len(),
{
    if targets.len() == 0 {
        None
    } else {
        match spec_first_named(targets.drop_last(), name) {
            Some(i) => Some(i),
            None => if targets.last()@ == name {
                Some(targets.len() - 1)
            } else {
                None
            },
        }
    }
}

/// A name found in a prefix of the targets is found at the same place in all of them.
proof fn lemma_first_named_prefix(targets: Seq<String>, name: Seq<char>, k: int)
    requires
        0 <= k <= targets.len(),
        spec_first_named(targets.take(k), name) is Some,
    ensures
        spec_first_named(targets, name) == spec_first_named(targets.take(k), name),
    decreases targets.len() - k,
{
    if k < targets.len() {
        assert(targets.take(k + 1).drop_last() =~= targets.take(k));
        lemma_first_named_prefix(targets, name, k + 1);
    } else {
        assert(targets.take(k) =~= targets);
    }
}

/// The first found position is a position of the name.
proof fn lemma_first_named_bounds(targets: Seq<String>, name: Seq<char>)
    ensures
        spec_first_named(targets, name) matches Some(i) ==> 0 <= i < targets.len()
            && targets[i]@ == name,
    decreases targets.len(),
{
    if targets.len() > 0 {
        lemma_first_named_bounds(targets.drop_last(), name);
    }
}

/// The executable target selected among `targets`: the first one named `requested` when a name
/// is requested, else the only one; `Err` with the diagnostic message otherwise.
pub open spec fn spec_select_target(targets: Seq<String>, requested: Option<String>) -> Result<
    int,
    Seq<char>,
> {
    match requested {
        Some(name) => match spec_first_named(targets, name@) {
            Some(i) => Ok(i),
            None => Err(spec_no_such_target_message(name@)),
        },
        None => if targets.len() == 1 {
            Ok(0)
        } else {
            Err(spec_ambiguous_target_message())
        },
    }
}

/// The entrypoint of an executable target: its name with `-` replaced by `_`, as a module,
/// followed by `::entrypoint`.
pub open spec fn spec_executable_entrypoint(target_name: Seq<char>) -> Seq<char> {
    spec_replace_hyphens(target_name) + "::entrypoint"@
}

/// Selects an executable target by name, or the only one when no name is requested.
fn select_executable_target(targets: &[String], requested: &Option<String>) -> (r: Result<
    usize,
    String,
>)
    ensures
        match spec_select_target(targets@, *requested) {
            Ok(i) => r is Ok && r->Ok_0 == i,
            Err(m) => r is Err && r->Err_0@ == m,
        },
        r is Ok ==> r->Ok_0 < targets@.len(),
{
    proof {
        lemma_first_named_bounds(targets@, match requested {
            Some(name) => name@,
            None => Seq::empty(),
        });
    }
    match requested {
        Some(name) => {
            let mut i: usize = 0;
            assert(targets@.take(0) =~= Seq::<String>::empty());
            while i < targets.len()
                invariant
                    i <= targets@.len(),
                    *requested == Some(*name),
                    spec_first_named(targets@.take(i as int), name@) is None,
                decreases targets@.len() - i,
            {
                assert(targets@.take(i + 1).drop_last() =~= targets@.take(i as int));
                assert(targets@.take(i + 1).last() == targets@[i as int]);
                if targets[i] == *name {
                    proof {
                        assert(spec_first_named(targets@.take(i + 1), name@) == Some(i as int));
                        lemma_first_named_prefix(targets@, name@, i + 1);
                    }
                    return Ok(i);
                }
                i += 1;
            }
            assert(targets@.take(targets@.len() as int) =~= targets@);
            Err(String::from_str("no executable target name '").concat(name.as_str()).concat("'"))
        },
        None => {
            if targets.len() == 1 {
                Ok(0)
            } else {
                Err(
                    String::from_str(
                        "ambiguous executable target selection: use --target to select a specific executable target",
                    ),
                )
            }
        },
    }
}

/// The entrypoint of the executable target `target_name`.
fn executable_entrypoint(target_name: &str) -> (r: String)
    ensures
        r@ == spec_executable_entrypoint(target_name@),
{
    replace_hyphens(target_name).concat("::entrypoint")
}

/// What choosing the entrypoint of a Cargo project does to the options: `Ok` with the new
/// entrypoint, or `Err` with the diagnostic message.
///
/// An entrypoint already given is kept. An executable target gets the entrypoint of the
/// selected executable target; a transaction script gets the transaction-script entrypoint;
/// other targets get none.
pub open spec fn spec_infer_entrypoint(executable_targets: Seq<String>, options: TargetOptions) -> Result<
    Option<Seq<char>>,
    Seq<char>,
> {
    let current = match options.entrypoint {
        Some(e) => Some(e@),
        None => None,
    };
    if options.entrypoint is Some {
        Ok(current)
    } else {
        match options.target_type {
            Some(TargetType::Executable) => match spec_select_target(
                executable_targets,
                options.target,
            ) {
                Ok(i) => Ok(Some(spec_executable_entrypoint(executable_targets[i]@))),
                Err(m) => Err(m),
            },
            Some(TargetType::TransactionScript) => Ok(Some(spec_transaction_script_entrypoint())),
            _ => Ok(current),
        }
    }
}

/// The entrypoint of the options, as plain values.
pub open spec fn entrypoint_view(options: TargetOptions) -> Option<Seq<char>> {
    match options.entrypoint {
        Some(e) => Some(e@),
        None => None,
    }
}

/// Chooses the entrypoint of a Cargo project from its executable targets, unless one was given.
pub fn infer_cargo_project_entrypoint(
    executable_targets: &[String],
    options: &mut TargetOptions,
) -> (r: Result<(), String>)
    ensures
        final(options).target_type == old(options).target_type,
        final(options).target == old(options).target,
        final(options).debug == old(options).debug,
        final(options).remap_path_prefixes == old(options).remap_path_prefixes,
        match spec_infer_entrypoint(executable_targets@, *old(options)) {
            Ok(e) => r is Ok && entrypoint_view(*final(options)) == e,
            Err(m) => r is Err && r->Err_0@ == m && entrypoint_view(*final(options))
                == entrypoint_view(*old(options)),
        },
{
    if options.entrypoint.is_some() {
        return Ok(());
    }
    match options.target_type {
        Some(TargetType::Executable) => {
            let index = match select_executable_target(executable_targets, &options.target) {
                Ok(index) => index,
                Err(message) => {
                    return Err(message);
                },
            };
            options.entrypoint = Some(executable_entrypoint(executable_targets[index].as_str()));
        },
        Some(TargetType::TransactionScript) => {
            options.entrypoint = Some(String::from_str("miden:base/transaction-script@1.0.0::run"));
        },
        _ => {},
    }
    Ok(())
}

/// The name of the executable target to assemble: the requested one, else the only executable
/// target, else the session name.
pub fn selected_executable_target_name<'a>(
    executable_targets: &'a [String],
    requested: Option<&'a str>,
    session_name: &'a str,
) -> (r: &'a str)
    ensures
        r@ == match requested {
            Some(name) => name@,
            None => if executable_targets@.len() == 1 {
                executable_targets@[0]@
            } else {
                session_name@
            },
        },
{
    if let Some(target_name) = requested {
        return target_name;
    }
    if executable_targets.len() == 1 {
        return executable_targets[0].as_str();
    }
    session_name
}

/// The targets of a project package, as far as choosing compiler options is concerned.
#[derive(Clone, Debug)]
pub struct ProjectTargets {
    /// The directory of the package manifest, if known.
    pub manifest_dir: Option<String>,
    /// The kind of the package's library target, if it has one.
    pub library_target: Option<TargetType>,
    /// The names of the package's executable targets.
    pub executable_targets: Vec<String>,
}

/// The kind of target being built: the requested one, else that of the library target, else an
/// executable.
pub open spec fn spec_effective_target_type(project: ProjectTargets, options: TargetOptions) -> TargetType {
    match options.target_type {
        Some(t) => t,
        None => match project.library_target {
            Some(t) => t,
            None => TargetType::Executable,
        },
    }
}

/// The entrypoint the options end with for the target kind being built, or the diagnostic of
/// a target that cannot be built.
pub open spec fn spec_target_entrypoint(project: ProjectTargets, options: TargetOptions) -> Result<
    Option<Seq<char>>,
    Seq<char>,
> {
    match spec_effective_target_type(project, options) {
        TargetType::Executable => match spec_select_target(
            project.executable_targets@,
            options.target,
        ) {
            Ok(i) => Ok(Some(spec_executable_entrypoint(project.executable_targets@[i]@))),
            Err(m) => Err(m),
        },
        TargetType::Kernel => Err("kernels are not currently supported via midenc"@),
        TargetType::Library | TargetType::AccountComponent | TargetType::Note => Ok(
            entrypoint_view(options),
        ),
        TargetType::TransactionScript => Ok(Some(spec_transaction_script_entrypoint())),
        TargetType::Other => Err("unsupported --target-type: {target_type}"@),
    }
}

/// Sets the compiler options implied by the project's targets: with debug information, the
/// package's source directory is stripped from source paths; an executable gets the entrypoint
/// of its selected executable target, a transaction script the transaction-script entrypoint;
/// kernels and unknown target kinds are refused.
pub fn modify_midenc_options_for_target(project: &ProjectTargets, options: &mut TargetOptions) -> (r:
    Result<(), String>)
    ensures
        final(options).debug == old(options).debug,
        final(options).target_type == old(options).target_type,
        final(options).target == old(options).target,
        remaps_view(final(options).remap_path_prefixes@) == remaps_view(
            old(options).remap_path_prefixes@,
        ) + if old(options).debug && project.manifest_dir is Some {
            seq![(project.manifest_dir->Some_0@, None::<Seq<char>>)]
        } else {
            Seq::empty()
        },
        match spec_target_entrypoint(*project, *old(options)) {
            Ok(e) => r is Ok && entrypoint_view(*final(options)) == e,
            Err(m) => r is Err && r->Err_0@ == m && entrypoint_view(*final(options))
                == entrypoint_view(*old(options)),
        },
{
    let ghost old_remaps = remaps_view(options.remap_path_prefixes@);
    // Source paths in debug information are made relative to the package's source directory.
    if options.debug {
        if let Some(source_dir) = &project.manifest_dir {
            options.remap_path_prefixes.push(RemapPathPrefix { from: source_dir.clone(), to: None });
        }
    }
    assert(remaps_view(options.remap_path_prefixes@) =~= old_remaps + if old(options).debug
        && project.manifest_dir is Some {
        seq![(project.manifest_dir->Some_0@, None::<Seq<char>>)]
    } else {
        Seq::empty()
    });
    let target_type = match options.target_type {
        Some(t) => t,
        None => match project.library_target {
            Some(t) => t,
            None => TargetType::Executable,
        },
    };
    match target_type {
        TargetType::Executable => {
            let index = match select_executable_target(
                project.executable_targets.as_slice(),
                &options.target,
            ) {
                Ok(index) => index,
                Err(message) => {
                    return Err(message);
                },
            };
            options.entrypoint = Some(
                executable_entrypoint(project.executable_targets[index].as_str()),
            );
        },
        TargetType::Kernel => {
            return Err(String::from_str("kernels are not currently supported via midenc"));
        },
        TargetType::Library | TargetType::AccountComponent | TargetType::Note => {},
        TargetType::TransactionScript => {
            options.entrypoint = Some(String::from_str("miden:base/transaction-script@1.0.0::run"));
        },
        TargetType::Other => {
            return Err(String::from_str("unsupported --target-type: {target_type}"));
        },
    }
    Ok(())
}

/// The rustc flags every Miden build passes: bulk-memory and wide-arithmetic target features,
/// the `miden` cfg, fatal link warnings, no panic location details, and immediate-abort panics.
pub open spec fn spec_base_rust_flags() -> Seq<char> {
    "-C target-feature=+bulk-memory,+wide-arithmetic"@ + " --cfg miden"@
        + " -C link-args=--fatal-warnings"@ + " -Zlocation-detail=none"@ + " -Zunstable-options"@
        + " -Cpanic=immediate-abort"@
}

/// The `RUSTFLAGS` of a Miden build: the base flags, then the inherited `RUSTFLAGS` when
/// non-empty, then the explicitly given flags, each separated by a space.
pub open spec fn spec_extra_rust_flags(inherited: Option<Seq<char>>, explicit: Option<Seq<char>>) -> Seq<
    char,
> {
    spec_base_rust_flags() + (match inherited {
        Some(i) => if i.len() > 0 {
            " "@ + i
        } else {
            Seq::empty()
        },
        None => Seq::empty(),
    }) + match explicit {
        Some(e) => " "@ + e,
        None => Seq::empty(),
    }
}

/// Builds the `RUSTFLAGS` of a Miden build from the inherited `RUSTFLAGS` (if set) and the
/// flags given to the compiler (if any).
pub fn extra_rust_flags(inherited: Option<&str>, explicit: Option<&str>) -> (r: String)
    ensures
        r@ == spec_extra_rust_flags(
            match inherited {
                Some(i) => Some(i@),
                None => None,
            },
            match explicit {
                Some(e) => Some(e@),
                None => None,
            },
        ),
{
    // Enable memcopy and 128-bit arithmetic ops.
    let mut flags = String::from_str("-C target-feature=+bulk-memory,+wide-arithmetic");
    // Propagate the Miden VM target signal to the entire crate graph.
    flags.append(" --cfg miden");
    // Errors on missing stub functions.
    flags.append(" -C link-args=--fatal-warnings");
    // No source file paths in the data segment for panics.
    flags.append(" -Zlocation-detail=none");
    // Build with panic=immediate-abort.
    flags.append(" -Zunstable-options");
    flags.append(" -Cpanic=immediate-abort");
    let ghost base = flags@;
    assert(base =~= spec_base_rust_flags());
    if let Some(inherited) = inherited {
        if !inherited.is_empty() {
            flags.append(" ");
            flags.append(inherited);
        }
    }
    let ghost with_inherited = flags@;
    if let Some(explicit) = explicit {
        flags.append(" ");
        flags.append(explicit);
    }
    proof {
        let i = match inherited {
            Some(i) => Some(i@),
            None => None::<Seq<char>>,
        };
        let e = match explicit {
            Some(e) => Some(e@),
            None => None::<Seq<char>>,
        };
        assert(with_inherited =~= base + match i {
            Some(i) => if i.len() > 0 {
                " "@ + i
            } else {
                Seq::empty()
            },
            None => Seq::empty(),
        });
        assert(flags@ =~= spec_extra_rust_flags(i, e));
    }
    flags
}


/// The result of `std::path::Path::file_stem` on a single path component: the component without
/// its extension (`None` for `..`).
pub uninterp spec fn path_file_stem(component: Seq<char>) -> Option<Seq<char>>;

/// The file stem of a path component, with `std::path::Path::file_stem`. The contract only names
/// the result: it is a function of the component alone.
#[verifier::external_body]
fn file_stem(component: &str) -> (r: Option<String>)
    ensures
        r is Some ==> path_file_stem(component@) == Some(r->Some_0@),
        r is None ==> path_file_stem(component@) is None,
{
    std::path::Path::new(component).file_stem().map(|stem| stem.to_string_lossy().into_owned())
}

/// A path as its components, each as plain characters.
pub open spec fn components_view(p: Seq<String>) -> Seq<Seq<char>> {
    p.map_values(|c: String| c@)
}

/// The parent of a path given by its components: the path without its last component; none for
/// the empty path and for the root `/` alone.
pub open spec fn spec_parent(p: Seq<Seq<char>>) -> Option<Seq<Seq<char>>> {
    if p.len() == 0 || (p.len() == 1 && p[0] == "/"@) {
        None
    } else {
        Some(p.drop_last())
    }
}

/// Whether a path's file stem is `miden-project`, ignoring ASCII case.
pub open spec fn spec_names_project_manifest(p: Seq<Seq<char>>) -> bool {
    p.len() > 0 && path_file_stem(p.last()) is Some && spec_eq_ignore_ascii_case(
        path_file_stem(p.last())->Some_0,
        "miden-project"@,
    )
}

/// The file name of a project manifest.
pub const PROJECT_MANIFEST_FILE: &'static str = "miden-project.toml";

/// The error when `--manifest-path` names a path without a parent.
pub const MANIFEST_WITHOUT_PARENT_ERROR: &'static str =
    "unable to locate project manifest: --manifest-path specifies a path with no parent";

/// The error when no manifest path is given and the working directory is unknown.
pub const NO_WORKING_DIRECTORY_ERROR: &'static str =
    "unable to locate project manifest: current working directory is unavailable";

/// The project directory and project manifest of a build, by components.
///
/// - A `--manifest-path` whose file stem is `miden-project` (ignoring ASCII case) is the project
///   manifest; the project directory is its parent, or `options_current_dir` without one.
/// - Another `--manifest-path` (a Cargo manifest) has its parent as the project directory, and
///   `miden-project.toml` there as the project manifest; a path without a parent is an error.
/// - Without `--manifest-path`, the process's working directory is the project directory, with
///   `miden-project.toml` in it; it is an error when the working directory is unknown.
pub open spec fn spec_project_manifest_location(
    manifest_path: Option<Seq<Seq<char>>>,
    options_current_dir: Seq<Seq<char>>,
    process_current_dir: Option<Seq<Seq<char>>>,
) -> Result<(Seq<Seq<char>>, Seq<Seq<char>>), Seq<char>> {
    match manifest_path {
        Some(path) => if spec_names_project_manifest(path) {
            Ok(
                (
                    match spec_parent(path) {
                        Some(dir) => dir,
                        None => options_current_dir,
                    },
                    path,
                ),
            )
        } else {
            match spec_parent(path) {
                Some(dir) => Ok((dir, dir.push(PROJECT_MANIFEST_FILE@))),
                None => Err(MANIFEST_WITHOUT_PARENT_ERROR@),
            }
        },
        None => match process_current_dir {
            Some(cwd) => Ok((cwd, cwd.push(PROJECT_MANIFEST_FILE@))),
            None => Err(NO_WORKING_DIRECTORY_ERROR@),
        },
    }
}

/// Copies a path given by its components.
pub(crate) fn clone_components(p: &[String]) -> (r: Vec<String>)
    ensures
        components_view(r@) == components_view(p@),
{
    let mut r: Vec<String> = Vec::new();
    let mut i: usize = 0;
    while i < p.len()
        invariant
            i <= p@.len(),
            components_view(r@) == components_view(p@.take(i as int)),
        decreases p@.len() - i,
    {
        let ghost before = r@;
        r.push(p[i].clone());
        assert(components_view(r@) =~= components_view(before).push(p@[i as int]@));
        assert(components_view(p@.take(i + 1)) =~= components_view(p@.take(i as int)).push(
            p@[i as int]@,
        ));
        i += 1;
    }
    assert(p@.take(p@.len() as int) =~= p@);
    r
}

/// The parent of a path given by its components, if it has one.
pub(crate) fn parent_components(p: &[String]) -> (r: Option<Vec<String>>)
    ensures
        match spec_parent(components_view(p@)) {
            Some(dir) => r is Some && components_view(r->Some_0@) == dir,
            None => r is None,
        },
{
    if p.len() == 0 {
        return None;
    }
    if p.len() == 1 {
        let root = String::from_str("/");
        if p[0] == root {
            proof {
                reveal_strlit("/");
            }
            return None;
        }
    }
    let mut dir = clone_components(p);
    dir.pop();
    assert(components_view(dir@) =~= components_view(p@).drop_last());
    proof {
        if p@.len() == 1 {
            reveal_strlit("/");
        }
    }
    Some(dir)
}

/// Locates the project directory and project manifest of a build, given the `--manifest-path`
/// option, the compiler options' working directory, and the process's working directory (`None`
/// when it is unavailable), all by components.
pub fn project_manifest_location(
    manifest_path: Option<&[String]>,
    options_current_dir: &[String],
    process_current_dir: Option<&[String]>,
) -> (r: Result<(Vec<String>, Vec<String>), String>)
    ensures
        match spec_project_manifest_location(
            match manifest_path {
                Some(p) => Some(components_view(p@)),
                None => None,
            },
            components_view(options_current_dir@),
            match process_current_dir {
                Some(p) => Some(components_view(p@)),
                None => None,
            },
        ) {
            Ok((dir, manifest)) => r is Ok && components_view(r->Ok_0.0@) == dir && components_view(
                r->Ok_0.1@,
            ) == manifest,
            Err(e) => r is Err && r->Err_0@ == e,
        },
{
    match manifest_path {
        Some(path) => {
            let names_project = if path.len() > 0 {
                match file_stem(path[path.len() - 1].as_str()) {
                    Some(stem) => eq_ignore_ascii_case(stem.as_str(), "miden-project"),
                    None => false,
                }
            } else {
                false
            };
            proof {
                if path@.len() > 0 {
                    assert(components_view(path@).last() == path@.last()@);
                }
            }
            if names_project {
                let dir = match parent_components(path) {
                    Some(dir) => dir,
                    None => clone_components(options_current_dir),
                };
                Ok((dir, clone_components(path)))
            } else {
                match parent_components(path) {
                    Some(dir) => {
                        let mut manifest = clone_components(dir.as_slice());
                        manifest.push(String::from_str(PROJECT_MANIFEST_FILE));
                        assert(components_view(manifest@) =~= components_view(dir@).push(
                            PROJECT_MANIFEST_FILE@,
                        ));
                        Ok((dir, manifest))
                    },
                    None => Err(String::from_str(MANIFEST_WITHOUT_PARENT_ERROR)),
                }
            }
        },
        None => match process_current_dir {
            Some(cwd) => {
                let dir = clone_components(cwd);
                let mut manifest = clone_components(cwd);
                manifest.push(String::from_str(PROJECT_MANIFEST_FILE));
                assert(components_view(manifest@) =~= components_view(cwd@).push(
                    PROJECT_MANIFEST_FILE@,
                ));
                Ok((dir, manifest))
            },
            None => Err(String::from_str(NO_WORKING_DIRECTORY_ERROR)),
        },
    }
}

/// The packages requested with `--package` are acceptable for a project defining the single
/// package `package_name`: none, or exactly that one.
pub open spec fn spec_requested_packages_ok(requested: Seq<String>, package_name: Seq<char>) -> bool {
    requested.len() == 0 || (requested.len() == 1 && requested[0]@ == package_name)
}

/// The error for more than one package requested from a single-package project.
pub open spec fn spec_multiple_packages_error(package_name: Seq<char>) -> Seq<char> {
    "multiple packages were requested via --package, but the project manifest only defines a single package ("@
        + package_name + ")"@
}

/// The error for a requested package that is not the project's.
pub open spec fn spec_package_mismatch_error(requested: Seq<char>, package_name: Seq<char>) -> Seq<char> {
    "the provided project manifest defines a package ("@ + requested
        + ") that differs from the one requested via --package ("@ + package_name + ")"@
}

/// Checks the packages requested with `--package` against a project manifest that defines the
/// single package `package_name`.
pub fn check_requested_packages(requested: &[String], package_name: &str) -> (r: Result<(), String>)
    ensures
        r is Ok <==> spec_requested_packages_ok(requested@, package_name@),
        requested@.len() > 1 ==> r is Err && r->Err_0@ == spec_multiple_packages_error(package_name@),
        requested@.len() == 1 && requested@[0]@ != package_name@ ==> r is Err && r->Err_0@
            == spec_package_mismatch_error(requested@[0]@, package_name@),
{
    if requested.len() > 1 {
        let mut msg = String::from_str(
            "multiple packages were requested via --package, but the project manifest only defines a single package (",
        );
        msg.append(package_name);
        msg.append(")");
        Err(msg)
    } else if requested.len() == 1 && requested[0] != String::from_str(package_name) {
        let mut msg = String::from_str("the provided project manifest defines a package (");
        msg.append(requested[0].as_str());
        msg.append(") that differs from the one requested via --package (");
        msg.append(package_name);
        msg.append(")");
        Err(msg)
    } else {
        Ok(())
    }
}

/// The WASI flavour of the Rust target a build compiles to: `wasip2` when the target requires
/// the component protocol, `wasip1` otherwise.
pub fn cargo_wasi(requires_protocol: bool) -> (r: &'static str)
    ensures
        r@ == if requires_protocol {
            "wasip2"@
        } else {
            "wasip1"@
        },
{
    if requires_protocol {
        "wasip2"
    } else {
        "wasip1"
    }
}

} // verus!
