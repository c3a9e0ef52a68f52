//! Driving the external compiler: what to invoke, how to read its progress
//! stream, and where its artifacts go.
//!
//! The compiler runs as a subprocess; the surrounding process spawns it and
//! feeds its parsed, line-delimited progress messages back in as plain
//! values. Everything that decides — the argument list, the interpretation
//! of the message stream, the placement of built artifacts — is pure and
//! verified here.

use vstd::prelude::*;
use vstd::string::StringExecFns;

use crate::imports::names_view;
use crate::settings::BuildSettings;

verus! {

/// One parsed message of the compiler's progress stream.
pub enum CompilerMessage {
    /// A compiler artifact was produced; dynamic-library artifacts carry
    /// the files they were written to.
    Artifact { is_dynamic_lib: bool, filenames: Vec<String> },
    /// The final message: whether the whole build succeeded.
    Finished { success: bool },
    /// Anything else in the stream.
    Other,
}

/// A subprocess invocation: the program and its arguments.
pub struct CommandPlan {
    pub program: String,
    pub args: Vec<String>,
}

/// The arguments of one incremental rebuild: a dev-profile library build of
/// the settings' package with its features, progress as line-delimited
/// machine-readable messages, plus the manifest path when one is set.
pub open spec fn spec_rebuild_args(s: crate::settings::BuildSettingsV) -> Seq<Seq<char>> {
    seq![
        "build"@,
        "--profile"@,
        "dev"@,
        "-p"@,
        s.package,
        "--lib"@,
        "--features"@,
        s.features,
        "--message-format=json"@,
    ] + (match s.manifest {
        Some(m) => seq!["--manifest-path"@, m],
        None => Seq::<Seq<char>>::empty(),
    })
}

/// The compiler invocation for one rebuild of the given settings.
pub fn rebuild(settings: &BuildSettings) -> (r: CommandPlan)
    ensures
        r.program@ == "cargo"@,
        names_view(r.args@) == spec_rebuild_args(settings@),
{
    let mut args: Vec<String> = Vec::new();
    args.push("build".to_owned());
    args.push("--profile".to_owned());
    args.push("dev".to_owned());
    args.push("-p".to_owned());
    args.push(settings.package.clone());
    args.push("--lib".to_owned());
    args.push("--features".to_owned());
    args.push(settings.features.clone());
    args.push("--message-format=json".to_owned());
    match &settings.manifest {
        Some(m) => {
            args.push("--manifest-path".to_owned());
            args.push(m.clone());
        },
        None => (),
    }
    proof {
        assert(names_view(args@) =~= spec_rebuild_args(settings@));
    }
    CommandPlan { program: "cargo".to_owned(), args }
}

/// The first execution builds exactly as any rebuild does.
pub fn first_exec(settings: &BuildSettings) -> (r: CommandPlan)
    ensures
        r.program@ == "cargo"@,
        names_view(r.args@) == spec_rebuild_args(settings@),
{
    rebuild(settings)
}

/// What a progress stream amounts to: whether the build finished
/// successfully — the last final message wins, no final message means
/// failure — and the files of every dynamic-library artifact, in stream
/// order.
pub open spec fn spec_collect(messages: Seq<CompilerMessage>) -> (bool, Seq<Seq<char>>)
    decreases messages.len(),
{
    if messages.len() == 0 {
        (false, Seq::empty())
    } else {
        let (succ, files) = spec_collect(messages.drop_last());
        match messages.last() {
            CompilerMessage::Artifact { is_dynamic_lib, filenames } => (
                succ,
                if is_dynamic_lib {
                    files + names_view(filenames@)
                } else {
                    files
                },
            ),
            CompilerMessage::Finished { success } => (success, files),
            CompilerMessage::Other => (succ, files),
        }
    }
}

/// Read a parsed progress stream: the success flag and the dynamic-library
/// artifact files it names.
pub fn collect_artifacts(messages: &Vec<CompilerMessage>) -> (r: (bool, Vec<String>))
    ensures
        (r.0, names_view(r.1@)) == spec_collect(messages@),
{
    let mut succeeded = false;
    let mut files: Vec<String> = Vec::new();
    let mut i: usize = 0;
    proof {
        assert(messages@.take(0) =~= Seq::<CompilerMessage>::empty());
        assert(names_view(files@) =~= Seq::<Seq<char>>::empty());
    }
    while i < messages.len()
        invariant
            i <= messages@.len(),
            (succeeded, names_view(files@)) == spec_collect(messages@.take(i as int)),
        decreases messages@.len() - i,
    {
        proof {
            assert(messages@.take(i as int + 1).drop_last() =~= messages@.take(i as int));
            assert(messages@.take(i as int + 1).last() == messages@[i as int]);
        }
        match &messages[i] {
            CompilerMessage::Artifact { is_dynamic_lib, filenames } => {
                if *is_dynamic_lib {
                    let ghost pre = files@;
                    let mut j: usize = 0;
                    while j < filenames.len()
                        invariant
                            j <= filenames@.len(),
                            names_view(files@) == names_view(pre) + names_view(
                                filenames@.take(j as int),
                            ),
                        decreases filenames@.len() - j,
                    {
                        let ghost mid = files@;
                        files.push(filenames[j].clone());
                        proof {
                            assert(names_view(files@) =~= names_view(mid) + seq![
                                filenames@[j as int]@,
                            ]);
                            assert(names_view(filenames@.take(j as int + 1)) =~= names_view(
                                filenames@.take(j as int),
                            ) + seq![filenames@[j as int]@]);
                            assert(names_view(files@) =~= names_view(pre) + names_view(
                                filenames@.take(j as int + 1),
                            ));
                        }
                        j = j + 1;
                    }
                    proof {
                        assert(filenames@.take(filenames@.len() as int) =~= filenames@);
                        assert(names_view(files@) =~= names_view(pre) + names_view(filenames@));
                    }
                }
            },
            CompilerMessage::Finished { success } => {
                succeeded = *success;
            },
            CompilerMessage::Other => (),
        }
        i = i + 1;
    }
    proof {
        assert(messages@.take(messages@.len() as int) =~= messages@);
    }
    (succeeded, files)
}

/// The space-joined rendering of an argument list.
pub open spec fn spec_join_spaces(args: Seq<Seq<char>>) -> Seq<char>
    decreases args.len(),
{
    if args.len() == 0 {
        Seq::empty()
    } else if args.len() == 1 {
        args[0]
    } else {
        spec_join_spaces(args.drop_last()) + seq![' '] + args.last()
    }
}

/// A command rendered for a log line: quoted, the program first, the
/// arguments space-joined after it.
pub fn print_command(plan: &CommandPlan) -> (r: String)
    ensures
        r@ == seq!['\''] + plan.program@ + seq![' '] + spec_join_spaces(names_view(plan.args@))
            + seq!['\''],
{
    proof {
        reveal_strlit("'");
        reveal_strlit(" ");
    }
    let mut out = "'".to_owned();
    out.append(plan.program.as_str());
    out.append(" ");
    let mut i: usize = 0;
    let ghost base = seq!['\''] + plan.program@ + seq![' '];
    proof {
        assert(out@ =~= base);
        assert(names_view(plan.args@).take(0) =~= Seq::<Seq<char>>::empty());
    }
    while i < plan.args.len()
        invariant
            i <= plan.args@.len(),
            base == seq!['\''] + plan.program@ + seq![' '],
            out@ == base + spec_join_spaces(names_view(plan.args@).take(i as int)),
        decreases plan.args@.len() - i,
    {
        proof {
            reveal_strlit(" ");
        }
        if i > 0 {
            out.append(" ");
        }
        out.append(plan.args[i].as_str());
        proof {
            let parts = names_view(plan.args@);
            assert(parts.take(i as int + 1).drop_last() =~= parts.take(i as int));
            assert(parts.take(i as int + 1).last() == plan.args@[i as int]@);
            if i == 0 {
                assert(out@ =~= base + spec_join_spaces(parts.take(1)));
            } else {
                assert(out@ =~= base + spec_join_spaces(parts.take(i as int + 1)));
            }
        }
        i = i + 1;
    }
    proof {
        reveal_strlit("'");
        assert(names_view(plan.args@).take(plan.args@.len() as int) =~= names_view(plan.args@));
    }
    out.append("'");
    out
}

/// Whether a built file already present at its destination may be
/// overwritten: only the hot-reload library itself is ever replaced, never
/// a dynamic dependency that happens to share the directory.
pub fn should_overwrite_existing(out_is_lib_path: bool) -> (r: bool)
    ensures
        r == out_is_lib_path,
{
    out_is_lib_path
}

/// The native-library search directories the compiler invocation is handed:
/// the settings' extra directories first, then the build's own output,
/// dependency and example directories, then each platform SDK's library
/// directory.
pub open spec fn spec_linker_search_dirs(
    additional: Seq<Seq<char>>,
    default_out: Seq<char>,
    deps: Seq<char>,
    examples: Seq<char>,
    apple_sdk: Seq<Seq<char>>,
) -> Seq<Seq<char>> {
    additional + seq![default_out, deps, examples] + apple_sdk.map_values(
        |d: Seq<char>| d + "/usr/lib"@,
    )
}

/// Assemble the linker's search directories for one build.
pub fn linker_search_directories(
    additional: &Vec<String>,
    default_out: &String,
    deps: &String,
    examples: &String,
    apple_sdk: &Vec<String>,
) -> (r: Vec<String>)
    ensures
        names_view(r@) == spec_linker_search_dirs(
            names_view(additional@),
            default_out@,
            deps@,
            examples@,
            names_view(apple_sdk@),
        ),
{
    let mut out: Vec<String> = Vec::new();
    let mut i: usize = 0;
    while i < additional.len()
        invariant
            i <= additional@.len(),
            names_view(out@) == names_view(additional@).take(i as int),
        decreases additional@.len() - i,
    {
        let ghost pre = out@;
        out.push(additional[i].clone());
        proof {
            assert(names_view(out@) =~= names_view(pre).push(additional@[i as int]@));
            assert(names_view(additional@).take(i as int + 1) =~= names_view(additional@).take(
                i as int,
            ).push(additional@[i as int]@));
        }
        i = i + 1;
    }
    proof {
        assert(names_view(additional@).take(additional@.len() as int) =~= names_view(additional@));
    }
    out.push(default_out.clone());
    out.push(deps.clone());
    out.push(examples.clone());
    let ghost base = names_view(additional@) + seq![default_out@, deps@, examples@];
    proof {
        assert(names_view(out@) =~= base);
    }
    let mut k: usize = 0;
    while k < apple_sdk.len()
        invariant
            k <= apple_sdk@.len(),
            base == names_view(additional@) + seq![default_out@, deps@, examples@],
            names_view(out@) == base + names_view(apple_sdk@).take(k as int).map_values(
                |d: Seq<char>| d + "/usr/lib"@,
            ),
        decreases apple_sdk@.len() - k,
    {
        let mut dir = apple_sdk[k].clone();
        dir.append("/usr/lib");
        let ghost pre = out@;
        out.push(dir);
        proof {
            assert(names_view(out@) =~= names_view(pre).push(apple_sdk@[k as int]@ + "/usr/lib"@));
            assert(names_view(apple_sdk@).take(k as int + 1).map_values(
                |d: Seq<char>| d + "/usr/lib"@,
            ) =~= names_view(apple_sdk@).take(k as int).map_values(
                |d: Seq<char>| d + "/usr/lib"@,
            ).push(apple_sdk@[k as int]@ + "/usr/lib"@));
        }
        k = k + 1;
    }
    proof {
        assert(names_view(apple_sdk@).take(apple_sdk@.len() as int) =~= names_view(apple_sdk@));
        assert(names_view(out@) =~= spec_linker_search_dirs(
            names_view(additional@),
            default_out@,
            deps@,
            examples@,
            names_view(apple_sdk@),
        ));
    }
    out
}

/// Whether a file name matches an artifact's stem and extension.
pub open spec fn spec_artifact_match(name: Seq<char>, stem: Seq<char>, extension: Seq<char>) -> bool {
    &&& name.len() >= stem.len() && name.take(stem.len() as int) == stem
    &&& name.len() >= extension.len() && name.skip(name.len() - extension.len()) == extension
}

/// Of the files in the dependency directory, the one a missing artifact
/// falls back to: the newest — by modification time — whose name begins
/// with the artifact's stem and ends with its extension; of equal times the
/// first listed wins. Nothing matches, nothing is copied.
pub fn select_fallback_artifact(
    files: &Vec<(String, u64)>,
    stem: &String,
    extension: &String,
) -> (r: Option<usize>)
    ensures
        match r {
            Some(i) => 0 <= i < files@.len() && spec_artifact_match(
                files@[i as int].0@,
                stem@,
                extension@,
            ) && (forall|j: int|
                0 <= j < files@.len() && spec_artifact_match(files@[j].0@, stem@, extension@)
                    ==> files@[j].1 <= files@[i as int].1) && (forall|j: int|
                0 <= j < i && spec_artifact_match(files@[j].0@, stem@, extension@) ==> files@[j].1
                    < files@[i as int].1),
            None => forall|j: int|
                0 <= j < files@.len() ==> !spec_artifact_match(files@[j].0@, stem@, extension@),
        },
{
    let mut best: Option<usize> = None;
    let mut i: usize = 0;
    while i < files.len()
        invariant
            i <= files@.len(),
            match best {
                Some(k) => 0 <= k < i && spec_artifact_match(
                    files@[k as int].0@,
                    stem@,
                    extension@,
                ) && (forall|j: int|
                    0 <= j < i && spec_artifact_match(files@[j].0@, stem@, extension@)
                        ==> files@[j].1 <= files@[k as int].1) && (forall|j: int|
                    0 <= j < k && spec_artifact_match(files@[j].0@, stem@, extension@)
                        ==> files@[j].1 < files@[k as int].1),
                None => forall|j: int|
                    0 <= j < i ==> !spec_artifact_match(files@[j].0@, stem@, extension@),
            },
        decreases files@.len() - i,
    {
        let name = &files[i].0;
        let matches_artifact = crate::text::starts_with(name.as_str(), stem.as_str())
            && crate::text::ends_with(name.as_str(), extension.as_str());
        if matches_artifact {
            match best {
                Some(k) => {
                    if files[i].1 > files[k].1 {
                        best = Some(i);
                    }
                },
                None => {
                    best = Some(i);
                },
            }
        }
        i = i + 1;
    }
    best
}

/// Whether a file found by the fallback search carries a hashed name — the
/// artifact's stem followed by a dash — and must therefore never replace an
/// existing file at the destination.
pub fn hashed_artifact_name(filename: &String, stem: &String) -> (r: bool)
    ensures
        r == (filename@.len() >= stem@.len() + 1 && filename@.take(stem@.len() as int + 1) == stem@
            + seq!['-']),
{
    proof {
        reveal_strlit("-");
        assert("-"@ =~= seq!['-']);
    }
    let mut prefix = stem.clone();
    prefix.append("-");
    crate::text::starts_with(filename.as_str(), prefix.as_str())
}

/// Watcher state: the file watcher of a build is set up once; later calls
/// find it already running.
pub struct WatcherState {
    pub started: bool,
}

impl WatcherState {
    pub fn new() -> (r: WatcherState)
        ensures
            !r.started,
    {
        WatcherState { started: false }
    }
}

/// Request the file watcher: returns whether the caller should set it up
/// now — true on the first call only, so a second watcher is never started.
pub fn run_watcher(state: &mut WatcherState) -> (start_now: bool)
    ensures
        final(state).started,
        start_now == !old(state).started,
{
    let start_now = !state.started;
    state.started = true;
    start_now
}

/// The watcher used when nothing is to be watched: it does nothing.
pub fn null_watcher() {
}

} // verus!
