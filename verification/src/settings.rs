//! Build settings and their environment encoding.
//!
//! A launcher process hands the settings to its re-executed child through a
//! single environment string: the seven fields joined by the `:!:`
//! separator. Encoding and parsing are exact inverses for settings whose
//! fields are free of the separator, and a parse says precisely which field
//! a malformed string is missing.

use vstd::prelude::*;
use vstd::string::StrSliceExecFns;
use vstd::string::StringExecFns;

use crate::text::{
    lemma_find_sub_characterization, lemma_find_sub_complete, occurs_at, spec_find_sub,
    spec_split, split_by,
};

verus! {

/// The settings one compiler invocation is built from. Immutable per build
/// request.
#[derive(Debug)]
pub struct BuildSettings {
    pub lib_path: String,
    pub watch_folder: String,
    pub manifest: Option<String>,
    pub package: String,
    pub features: String,
    pub out_target: String,
    pub target_folder: Option<String>,
}

/// The view of the settings.
pub struct BuildSettingsV {
    pub lib_path: Seq<char>,
    pub watch_folder: Seq<char>,
    pub manifest: Option<Seq<char>>,
    pub package: Seq<char>,
    pub features: Seq<char>,
    pub out_target: Seq<char>,
    pub target_folder: Option<Seq<char>>,
}

pub open spec fn opt_view(o: Option<String>) -> Option<Seq<char>> {
    match o {
        Some(s) => Some(s@),
        None => None,
    }
}

impl View for BuildSettings {
    type V = BuildSettingsV;

    open spec fn view(&self) -> BuildSettingsV {
        BuildSettingsV {
            lib_path: self.lib_path@,
            watch_folder: self.watch_folder@,
            manifest: opt_view(self.manifest),
            package: self.package@,
            features: self.features@,
            out_target: self.out_target@,
            target_folder: opt_view(self.target_folder),
        }
    }
}

/// The field separator of the environment encoding.
pub open spec fn sep() -> Seq<char> {
    seq![':', '!', ':']
}

/// An optional field's text: its value, or empty.
pub open spec fn opt_text(o: Option<Seq<char>>) -> Seq<char> {
    match o {
        Some(s) => s,
        None => Seq::empty(),
    }
}

/// The environment encoding: the seven fields joined by the separator, the
/// optional fields written as their text or left empty.
pub open spec fn spec_encode(s: BuildSettingsV) -> Seq<char> {
    s.lib_path + sep() + s.watch_folder + sep() + opt_text(s.manifest) + sep() + s.package + sep()
        + s.features + sep() + s.out_target + sep() + opt_text(s.target_folder)
}

/// What a malformed settings string is missing.
#[derive(Debug, PartialEq, Eq)]
pub enum SettingsError {
    NoWatchFolder,
    NoPackage,
    NoFeatures,
    NoOutTarget,
}

/// The parse of an environment string: split on the separator; the first
/// six fields are required (the third, the manifest, may be empty), a
/// seventh names the target folder, and anything further is ignored. An
/// empty optional field reads as absent.
pub open spec fn spec_parse(input: Seq<char>) -> Result<BuildSettingsV, SettingsError> {
    let parts = spec_split(input, sep());
    if parts.len() < 2 {
        Err(SettingsError::NoWatchFolder)
    } else if parts.len() < 4 {
        Err(SettingsError::NoPackage)
    } else if parts.len() < 5 {
        Err(SettingsError::NoFeatures)
    } else if parts.len() < 6 {
        Err(SettingsError::NoOutTarget)
    } else {
        Ok(
            BuildSettingsV {
                lib_path: parts[0],
                watch_folder: parts[1],
                manifest: if parts[2].len() > 0 {
                    Some(parts[2])
                } else {
                    None
                },
                package: parts[3],
                features: parts[4],
                out_target: parts[5],
                target_folder: if parts.len() > 6 && parts[6].len() > 0 {
                    Some(parts[6])
                } else {
                    None
                },
            },
        )
    }
}

/// A field that survives the encoding: the separator does not occur in it,
/// and it does not end in `:!`, which would fuse with the following
/// separator into an earlier occurrence.
pub open spec fn field_clean(f: Seq<char>) -> bool {
    &&& spec_find_sub(f, sep()) is None
    &&& !(f.len() >= 2 && f[f.len() - 2] == ':' && f[f.len() - 1] == '!')
}

/// Settings the encoding can carry faithfully: every field clean, and the
/// optional fields, when present, not empty (an empty optional field is
/// indistinguishable from an absent one).
pub open spec fn settings_clean(s: BuildSettingsV) -> bool {
    &&& field_clean(s.lib_path)
    &&& field_clean(s.watch_folder)
    &&& field_clean(opt_text(s.manifest))
    &&& field_clean(s.package)
    &&& field_clean(s.features)
    &&& field_clean(s.out_target)
    &&& field_clean(opt_text(s.target_folder))
    &&& (s.manifest matches Some(m) ==> m.len() > 0)
    &&& (s.target_folder matches Some(t) ==> t.len() > 0)
}

proof fn lemma_split_clean_concat(f: Seq<char>, rest: Seq<char>)
    requires
        field_clean(f),
    ensures
        spec_split(f + sep() + rest, sep()) == seq![f] + spec_split(rest, sep()),
{
    let total = f + sep() + rest;
    let n = f.len() as int;
    assert(occurs_at(total, sep(), n)) by {
        assert(total.subrange(n, n + 3) =~= sep());
    }
    assert forall|p: int| 0 <= p < n implies !occurs_at(total, sep(), p) by {
        if occurs_at(total, sep(), p) {
            if p + 3 <= n {
                assert(f.subrange(p, p + 3) =~= total.subrange(p, p + 3));
                assert(occurs_at(f, sep(), p));
                lemma_find_sub_characterization(f, sep());
            } else if p == n - 2 {
                assert(total.subrange(p, p + 3)[0] == f[n - 2]);
                assert(total.subrange(p, p + 3)[1] == f[n - 1]);
                assert(f[n - 2] == ':' && f[n - 1] == '!');
            } else {
                assert(p == n - 1);
                assert(total.subrange(p, p + 3)[1] == total[n]);
                assert(total[n] == ':');
                assert(total.subrange(p, p + 3)[1] == '!');
            }
        }
    }
    lemma_find_sub_complete(total, sep(), n);
    assert(total.take(n) =~= f);
    assert(total.skip(n + 3) =~= rest);
}

/// Parsing inverts encoding: settings whose fields are free of the
/// separator read back from their environment string exactly.
#[verifier::rlimit(100)]
pub proof fn lemma_settings_round_trip(s: BuildSettingsV)
    requires
        settings_clean(s),
    ensures
        spec_parse(spec_encode(s)) == Ok::<BuildSettingsV, SettingsError>(s),
{
    let f0 = s.lib_path;
    let f1 = s.watch_folder;
    let f2 = opt_text(s.manifest);
    let f3 = s.package;
    let f4 = s.features;
    let f5 = s.out_target;
    let f6 = opt_text(s.target_folder);
    let t6 = f6;
    let t5 = f5 + sep() + t6;
    let t4 = f4 + sep() + t5;
    let t3 = f3 + sep() + t4;
    let t2 = f2 + sep() + t3;
    let t1 = f1 + sep() + t2;
    let t0 = f0 + sep() + t1;
    assert(spec_encode(s) =~= t0);
    assert(spec_split(t6, sep()) == seq![t6]);
    lemma_split_clean_concat(f5, t6);
    lemma_split_clean_concat(f4, t5);
    lemma_split_clean_concat(f3, t4);
    lemma_split_clean_concat(f2, t3);
    lemma_split_clean_concat(f1, t2);
    lemma_split_clean_concat(f0, t1);
    let parts = spec_split(t0, sep());
    assert(parts =~= seq![f0, f1, f2, f3, f4, f5, f6]);
    assert(spec_parse(spec_encode(s)) == Ok::<BuildSettingsV, SettingsError>(s));
}

impl BuildSettings {
    /// Write the settings as the single environment string.
    pub fn encode(&self) -> (r: String)
        ensures
            r@ == spec_encode(self@),
    {
        proof {
            reveal_strlit(":!:");
            assert(":!:"@ =~= sep());
        }
        let mut out = self.lib_path.clone();
        out.append(":!:");
        out.append(self.watch_folder.as_str());
        out.append(":!:");
        match &self.manifest {
            Some(m) => out.append(m.as_str()),
            None => (),
        }
        out.append(":!:");
        out.append(self.package.as_str());
        out.append(":!:");
        out.append(self.features.as_str());
        out.append(":!:");
        out.append(self.out_target.as_str());
        out.append(":!:");
        match &self.target_folder {
            Some(t) => out.append(t.as_str()),
            None => (),
        }
        proof {
            assert(out@ =~= spec_encode(self@));
        }
        out
    }

    /// Read settings back from the environment string, naming the first
    /// missing field of a malformed one.
    pub fn parse(input: &String) -> (r: Result<BuildSettings, SettingsError>)
        ensures
            match r {
                Ok(v) => spec_parse(input@) == Ok::<BuildSettingsV, SettingsError>(v@),
                Err(e) => spec_parse(input@) == Err::<BuildSettingsV, SettingsError>(e),
            },
    {
        proof {
            reveal_strlit(":!:");
            assert(":!:"@ =~= sep());
        }
        let parts = split_by(input, ":!:");
        let ghost parts_v = spec_split(input@, sep());
        if parts.len() < 2 {
            return Err(SettingsError::NoWatchFolder);
        }
        if parts.len() < 4 {
            return Err(SettingsError::NoPackage);
        }
        if parts.len() < 5 {
            return Err(SettingsError::NoFeatures);
        }
        if parts.len() < 6 {
            return Err(SettingsError::NoOutTarget);
        }
        let manifest = if !parts[2].as_str().is_empty() {
            Some(parts[2].clone())
        } else {
            None
        };
        let target_folder = if parts.len() > 6 && !parts[6].as_str().is_empty() {
            Some(parts[6].clone())
        } else {
            None
        };
        Ok(
            BuildSettings {
                lib_path: parts[0].clone(),
                watch_folder: parts[1].clone(),
                manifest,
                package: parts[3].clone(),
                features: parts[4].clone(),
                out_target: parts[5].clone(),
                target_folder,
            },
        )
    }
}

/// The path of the hot-reload library a build produces.
pub struct LibPathSet {
    pub path: String,
}

impl LibPathSet {
    pub fn new(path: String) -> (r: LibPathSet)
        ensures
            r.path@ == path@,
    {
        LibPathSet { path }
    }

    pub fn library_path(&self) -> (r: String)
        ensures
            r@ == self.path@,
    {
        self.path.clone()
    }
}

/// What settings setup ends in: the library path to run with, or an
/// environment change the process must re-execute itself under before the
/// native loader will find its libraries.
pub enum BuildSettingsReady {
    LibraryPath(LibPathSet),
    RequiredEnvChange(String, String),
}

/// Decide how settings setup ends: when every required search directory is
/// already on the native loader's path, the library path is ready to run
/// with; otherwise the process must re-execute itself under the extended
/// variable before the loader will find its libraries.
pub fn settings_ready(
    lib_path: String,
    env_var: String,
    env_value: String,
    paths_already_set: bool,
) -> (r: BuildSettingsReady)
    ensures
        paths_already_set ==> (r matches BuildSettingsReady::LibraryPath(l) && l.path@
            == lib_path@),
        !paths_already_set ==> (r matches BuildSettingsReady::RequiredEnvChange(var, val) && var@
            == env_var@ && val@ == env_value@),
{
    if paths_already_set {
        BuildSettingsReady::LibraryPath(LibPathSet::new(lib_path))
    } else {
        BuildSettingsReady::RequiredEnvChange(env_var, env_value)
    }
}

/// Read the settings handed down through the environment and return the
/// library path they name; the settings themselves are returned alongside
/// so the caller owns them, rather than a process-wide cell.
pub fn load_build_settings(settings: String) -> (r: Result<(BuildSettings, LibPathSet), SettingsError>)
    ensures
        match r {
            Ok(v) => spec_parse(settings@) == Ok::<BuildSettingsV, SettingsError>(v.0@) && v.1.path@
                == v.0@.lib_path,
            Err(e) => spec_parse(settings@) == Err::<BuildSettingsV, SettingsError>(e),
        },
{
    let parsed = BuildSettings::parse(&settings)?;
    let lib_path = parsed.lib_path.clone();
    Ok((parsed, LibPathSet::new(lib_path)))
}

/// The directories the command-line tooling keeps its data in: a data
/// directory and the toolchain directory inside it.
pub struct CliPaths {
    pub data: String,
    pub ziglang: String,
}

impl CliPaths {
    /// The paths under a given data directory.
    pub fn new(data: String) -> (r: CliPaths)
        ensures
            r.data@ == data@,
            r.ziglang@ == data@ + "/ziglang"@,
    {
        let mut ziglang = data.clone();
        ziglang.append("/ziglang");
        CliPaths { data, ziglang }
    }
}

/// The linker named by a `-fuse-ld=` flag: the text between the first such
/// flag and the next one, or to the end. Nothing when the flag is absent.
pub fn linker_from_flags(flags: &String) -> (r: Option<String>)
    ensures
        ({
            let parts = spec_split(flags@, "-fuse-ld="@);
            match r {
                Some(v) => parts.len() >= 2 && v@ == parts[1],
                None => parts.len() < 2,
            }
        }),
{
    proof {
        reveal_strlit("-fuse-ld=");
    }
    let parts = split_by(flags, "-fuse-ld=");
    if parts.len() >= 2 {
        Some(parts[1].clone())
    } else {
        None
    }
}

} // verus!
