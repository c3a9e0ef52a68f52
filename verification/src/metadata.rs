//! Decisions over workspace metadata: which target of a package a build
//! compiles, and which library of a workspace the hot reload attaches to.
//! The metadata itself arrives as plain values, read from the toolchain's
//! machine-readable output by the surrounding process.

use vstd::prelude::*;

verus! {

/// One build target of a package.
pub struct TargetInfo {
    pub name: String,
    pub is_lib: bool,
    pub is_bin: bool,
    pub is_example: bool,
}

/// One package, with its targets and its declared default binary.
pub struct PackageInfo {
    pub name: String,
    pub targets: Vec<TargetInfo>,
    pub default_run: Option<String>,
}

/// The first library target, if any.
pub open spec fn spec_first_lib(targets: Seq<TargetInfo>) -> Option<int>
    decreases targets.len(),
{
    if targets.len() == 0 {
        None
    } else if targets[0].is_lib {
        Some(0int)
    } else {
        match spec_first_lib(targets.skip(1)) {
            Some(i) => Some(i + 1),
            None => None,
        }
    }
}

/// The first binary target of the given name, if any.
pub open spec fn spec_first_named_bin(targets: Seq<TargetInfo>, name: Seq<char>) -> Option<int>
    decreases targets.len(),
{
    if targets.len() == 0 {
        None
    } else if targets[0].is_bin && targets[0].name@ == name {
        Some(0int)
    } else {
        match spec_first_named_bin(targets.skip(1), name) {
            Some(i) => Some(i + 1),
            None => None,
        }
    }
}

/// The first binary target, if any.
pub open spec fn spec_first_bin(targets: Seq<TargetInfo>) -> Option<int>
    decreases targets.len(),
{
    if targets.len() == 0 {
        None
    } else if targets[0].is_bin {
        Some(0int)
    } else {
        match spec_first_bin(targets.skip(1)) {
            Some(i) => Some(i + 1),
            None => None,
        }
    }
}

/// The target a build of this package compiles: its library target if it
/// has one; otherwise, with a declared default binary, the binary of that
/// name; otherwise its first binary; nothing if none of these exists.
pub open spec fn spec_package_target(p: PackageInfo) -> Option<Seq<char>> {
    match spec_first_lib(p.targets@) {
        Some(i) => Some(p.targets@[i].name@),
        None => match p.default_run {
            Some(d) => match spec_first_named_bin(p.targets@, d@) {
                Some(i) => Some(p.targets@[i].name@),
                None => None,
            },
            None => match spec_first_bin(p.targets@) {
                Some(i) => Some(p.targets@[i].name@),
                None => None,
            },
        },
    }
}

proof fn lemma_first_lib(targets: Seq<TargetInfo>)
    ensures
        match spec_first_lib(targets) {
            Some(i) => 0 <= i < targets.len() && targets[i].is_lib && (forall|j: int|
                0 <= j < i ==> !targets[j].is_lib),
            None => forall|j: int| 0 <= j < targets.len() ==> !targets[j].is_lib,
        },
    decreases targets.len(),
{
    if targets.len() > 0 && !targets[0].is_lib {
        lemma_first_lib(targets.skip(1));
        assert forall|j: int|
            1 <= j < targets.len() implies targets[j] == targets.skip(1)[j - 1] by {}
    }
}

proof fn lemma_first_named_bin(targets: Seq<TargetInfo>, name: Seq<char>)
    ensures
        match spec_first_named_bin(targets, name) {
            Some(i) => 0 <= i < targets.len() && targets[i].is_bin && targets[i].name@ == name && (
            forall|j: int| 0 <= j < i ==> !(targets[j].is_bin && targets[j].name@ == name)),
            None => forall|j: int|
                0 <= j < targets.len() ==> !(targets[j].is_bin && targets[j].name@ == name),
        },
    decreases targets.len(),
{
    if targets.len() > 0 && !(targets[0].is_bin && targets[0].name@ == name) {
        lemma_first_named_bin(targets.skip(1), name);
        assert forall|j: int|
            1 <= j < targets.len() implies targets[j] == targets.skip(1)[j - 1] by {}
    }
}

proof fn lemma_first_bin(targets: Seq<TargetInfo>)
    ensures
        match spec_first_bin(targets) {
            Some(i) => 0 <= i < targets.len() && targets[i].is_bin && (forall|j: int|
                0 <= j < i ==> !targets[j].is_bin),
            None => forall|j: int| 0 <= j < targets.len() ==> !targets[j].is_bin,
        },
    decreases targets.len(),
{
    if targets.len() > 0 && !targets[0].is_bin {
        lemma_first_bin(targets.skip(1));
        assert forall|j: int|
            1 <= j < targets.len() implies targets[j] == targets.skip(1)[j - 1] by {}
    }
}

proof fn lemma_first_lib_complete(targets: Seq<TargetInfo>, i: int)
    requires
        0 <= i < targets.len(),
        targets[i].is_lib,
        forall|j: int| 0 <= j < i ==> !targets[j].is_lib,
    ensures
        spec_first_lib(targets) == Some(i),
{
    lemma_first_lib(targets);
}

proof fn lemma_first_named_bin_complete(targets: Seq<TargetInfo>, name: Seq<char>, i: int)
    requires
        0 <= i < targets.len(),
        targets[i].is_bin && targets[i].name@ == name,
        forall|j: int| 0 <= j < i ==> !(targets[j].is_bin && targets[j].name@ == name),
    ensures
        spec_first_named_bin(targets, name) == Some(i),
{
    lemma_first_named_bin(targets, name);
}

proof fn lemma_first_bin_complete(targets: Seq<TargetInfo>, i: int)
    requires
        0 <= i < targets.len(),
        targets[i].is_bin,
        forall|j: int| 0 <= j < i ==> !targets[j].is_bin,
    ensures
        spec_first_bin(targets) == Some(i),
{
    lemma_first_bin(targets);
}

/// The name of the artifact a build of this package compiles, by the
/// fallback chain: library target, then declared default binary, then
/// first binary.
pub fn find_package_target(p: &PackageInfo) -> (r: Option<String>)
    ensures
        match r {
            Some(name) => spec_package_target(*p) == Some(name@),
            None => spec_package_target(*p) is None,
        },
{
    let mut i: usize = 0;
    while i < p.targets.len()
        invariant
            i <= p.targets@.len(),
            forall|j: int| 0 <= j < i ==> !p.targets@[j].is_lib,
        decreases p.targets@.len() - i,
    {
        if p.targets[i].is_lib {
            proof {
                lemma_first_lib_complete(p.targets@, i as int);
            }
            return Some(p.targets[i].name.clone());
        }
        i = i + 1;
    }
    proof {
        lemma_first_lib(p.targets@);
        if spec_first_lib(p.targets@) is Some {
            let w = spec_first_lib(p.targets@)->Some_0;
            assert(p.targets@[w].is_lib);
        }
    }
    match &p.default_run {
        Some(d) => {
            let mut i: usize = 0;
            while i < p.targets.len()
                invariant
                    i <= p.targets@.len(),
                    spec_first_lib(p.targets@) is None,
                    p.default_run matches Some(d0) && d0@ == d@,
                    forall|j: int|
                        0 <= j < i ==> !(p.targets@[j].is_bin && p.targets@[j].name@ == d@),
                decreases p.targets@.len() - i,
            {
                if p.targets[i].is_bin && p.targets[i].name == *d {
                    proof {
                        lemma_first_named_bin_complete(p.targets@, d@, i as int);
                    }
                    return Some(p.targets[i].name.clone());
                }
                i = i + 1;
            }
            proof {
                lemma_first_named_bin(p.targets@, d@);
                if spec_first_named_bin(p.targets@, d@) is Some {
                    let w = spec_first_named_bin(p.targets@, d@)->Some_0;
                    assert(p.targets@[w].is_bin && p.targets@[w].name@ == d@);
                }
            }
            None
        },
        None => {
            let mut i: usize = 0;
            while i < p.targets.len()
                invariant
                    i <= p.targets@.len(),
                    spec_first_lib(p.targets@) is None,
                    p.default_run is None,
                    forall|j: int| 0 <= j < i ==> !p.targets@[j].is_bin,
                decreases p.targets@.len() - i,
            {
                if p.targets[i].is_bin {
                    proof {
                        lemma_first_bin_complete(p.targets@, i as int);
                    }
                    return Some(p.targets[i].name.clone());
                }
                i = i + 1;
            }
            proof {
                lemma_first_bin(p.targets@);
                if spec_first_bin(p.targets@) is Some {
                    let w = spec_first_bin(p.targets@)->Some_0;
                    assert(p.targets@[w].is_bin);
                }
            }
            None
        },
    }
}

/// One candidate the workspace offers for hot reloading: a package's
/// target, and whether it can build as a dynamic library.
pub struct LibraryCandidate {
    pub package_name: String,
    pub target_name: String,
    pub has_dylib: bool,
}

/// Whether a candidate survives the filters: it must build as a dynamic
/// library, carry the requested package name if one is set, and carry the
/// requested library name if one is set.
pub open spec fn spec_candidate_matches(
    c: LibraryCandidate,
    package: Option<Seq<char>>,
    lib_name: Option<Seq<char>>,
) -> bool {
    &&& c.has_dylib
    &&& (match package {
        Some(p) => c.package_name@ == p,
        None => true,
    })
    &&& (match lib_name {
        Some(l) => c.target_name@ == l,
        None => true,
    })
}

/// Why no single library could be selected.
#[derive(Debug, PartialEq, Eq)]
pub enum LibrarySelectError {
    /// More than one library matches: the caller must disambiguate.
    MultipleLibraries,
    /// Nothing in the workspace matches the filters.
    NoMatchingLibraries,
}

pub open spec fn opt_name_view(o: Option<String>) -> Option<Seq<char>> {
    match o {
        Some(s) => Some(s@),
        None => None,
    }
}

/// Select the one library the hot reload attaches to: exactly one
/// candidate may survive the filters; none is an error, and so are two or
/// more.
pub fn select_single_library(
    candidates: &Vec<LibraryCandidate>,
    package: &Option<String>,
    lib_name: &Option<String>,
) -> (r: Result<usize, LibrarySelectError>)
    ensures
        match r {
            Ok(i) => 0 <= i < candidates@.len() && spec_candidate_matches(
                candidates@[i as int],
                opt_name_view(*package),
                opt_name_view(*lib_name),
            ) && (forall|j: int|
                0 <= j < candidates@.len() && j != i ==> !spec_candidate_matches(
                    candidates@[j],
                    opt_name_view(*package),
                    opt_name_view(*lib_name),
                )),
            Err(LibrarySelectError::MultipleLibraries) => exists|a: int, b: int|
                0 <= a < b < candidates@.len() && spec_candidate_matches(
                    candidates@[a],
                    opt_name_view(*package),
                    opt_name_view(*lib_name),
                ) && spec_candidate_matches(
                    candidates@[b],
                    opt_name_view(*package),
                    opt_name_view(*lib_name),
                ),
            Err(LibrarySelectError::NoMatchingLibraries) => forall|j: int|
                0 <= j < candidates@.len() ==> !spec_candidate_matches(
                    candidates@[j],
                    opt_name_view(*package),
                    opt_name_view(*lib_name),
                ),
        },
{
    let ghost pv = opt_name_view(*package);
    let ghost lv = opt_name_view(*lib_name);
    let mut found: Option<usize> = None;
    let mut i: usize = 0;
    while i < candidates.len()
        invariant
            i <= candidates@.len(),
            pv == opt_name_view(*package),
            lv == opt_name_view(*lib_name),
            match found {
                Some(k) => 0 <= k < i && spec_candidate_matches(candidates@[k as int], pv, lv) && (
                forall|j: int|
                    0 <= j < i && j != k ==> !spec_candidate_matches(candidates@[j], pv, lv)),
                None => forall|j: int| 0 <= j < i ==> !spec_candidate_matches(candidates@[j], pv, lv),
            },
        decreases candidates@.len() - i,
    {
        let matches = candidates[i].has_dylib && (match package {
            Some(p) => candidates[i].package_name == *p,
            None => true,
        }) && (match lib_name {
            Some(l) => candidates[i].target_name == *l,
            None => true,
        });
        if matches {
            match found {
                Some(k) => {
                    proof {
                        assert(spec_candidate_matches(candidates@[k as int], pv, lv));
                        assert(spec_candidate_matches(candidates@[i as int], pv, lv));
                    }
                    return Err(LibrarySelectError::MultipleLibraries);
                },
                None => {
                    found = Some(i);
                },
            }
        }
        i = i + 1;
    }
    match found {
        Some(k) => Ok(k),
        None => Err(LibrarySelectError::NoMatchingLibraries),
    }
}

} // verus!
