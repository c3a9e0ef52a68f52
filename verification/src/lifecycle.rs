//! Library lifecycle: loading native libraries under a copy-before-load
//! discipline, a registry of live handles keyed by opaque identifiers, and
//! the ordered teardown that removes a backing file only after its native
//! handle is unloaded.
//!
//! The unsafe native loading itself lives outside this crate; the registry
//! here decides everything around it — which file to load, which file to
//! back up, which handle a call goes to, and which actions a release must
//! perform in which order — and hands those decisions out as plain values.

use vstd::prelude::*;
use vstd::string::StrSliceExecFns;
use vstd::string::StringExecFns;

use crate::text::{rfind_char, spec_rfind_char};

verus! {

/// Where a library load reads and writes: the file to load, and the backup
/// the original is copied to beforehand.
pub struct LoadPlan {
    /// Load the build's own output file in place, with no copy.
    pub use_original: bool,
    /// The timestamped backup the original is copied to first, when a copy
    /// is made.
    pub backup_path: Option<String>,
    /// The file the native loader is pointed at: the freshly named copy, or
    /// the original itself.
    pub load_path: String,
}

/// The copy and backup paths of a load: the copy takes the directory and
/// extension of the original with the unique tag as its stem; the backup
/// appends the tag and a backup suffix to the original's name. A file
/// without an extension is copied to the bare tag, and its backup falls
/// back to the original path itself.
pub open spec fn spec_load_paths(path: Seq<char>, tag: Seq<char>) -> (Seq<char>, Seq<char>) {
    let dir = match spec_rfind_char(path, '/') {
        Some(i) => path.take(i + 1),
        None => Seq::empty(),
    };
    let fname = match spec_rfind_char(path, '/') {
        Some(i) => path.skip(i + 1),
        None => path,
    };
    match spec_rfind_char(fname, '.') {
        Some(d) => if d > 0 {
            let stem = fname.take(d);
            let ext = fname.skip(d + 1);
            (
                dir + tag + seq!['.'] + ext,
                dir + stem + seq!['.'] + ext + seq!['.'] + tag + ".backup"@,
            )
        } else {
            (dir + tag, path)
        },
        None => (dir + tag, path),
    }
}

/// Plan one library load. With `use_original` the build output is loaded in
/// place; otherwise the original is first backed up and then renamed to a
/// copy named by the unique tag, so the build orchestrator may freely
/// overwrite the original while the copy stays mapped into the process.
pub fn load_plan(path: &String, use_original: bool, tag: &String) -> (r: LoadPlan)
    ensures
        r.use_original == use_original,
        use_original ==> r.load_path@ == path@ && r.backup_path is None,
        !use_original ==> r.load_path@ == spec_load_paths(path@, tag@).0 && (match r.backup_path {
            Some(b) => b@ == spec_load_paths(path@, tag@).1,
            None => false,
        }),
{
    if use_original {
        return LoadPlan { use_original, backup_path: None, load_path: path.clone() };
    }
    proof {
        reveal_strlit(".");
        reveal_strlit(".backup");
        assert("."@ =~= seq!['.']);
    }
    let n = path.as_str().unicode_len();
    let (dir, fname) = match rfind_char(path.as_str(), '/') {
        Some(i) => {
            proof {
                crate::text::lemma_rfind_char_characterization(path@, '/');
            }
            (
                path.as_str().substring_char(0, i + 1).to_owned(),
                path.as_str().substring_char(i + 1, n).to_owned(),
            )
        },
        None => (String::new(), path.clone()),
    };
    proof {
        assert(path@.take(path@.len() as int) =~= path@);
        assert(path@.skip(0) =~= path@);
    }
    let fn_len = fname.as_str().unicode_len();
    match rfind_char(fname.as_str(), '.') {
        Some(d) if d > 0 => {
            proof {
                crate::text::lemma_rfind_char_characterization(fname@, '.');
            }
            let stem = fname.as_str().substring_char(0, d).to_owned();
            let ext = fname.as_str().substring_char(d + 1, fn_len).to_owned();
            let mut load_path = dir.clone();
            load_path.append(tag.as_str());
            load_path.append(".");
            load_path.append(ext.as_str());
            let mut backup = dir;
            backup.append(stem.as_str());
            backup.append(".");
            backup.append(ext.as_str());
            backup.append(".");
            backup.append(tag.as_str());
            backup.append(".backup");
            proof {
                assert(fname@.take(d as int) =~= fname@.subrange(0, d as int));
                assert(fname@.skip(d + 1) =~= fname@.subrange(d + 1, fname@.len() as int));
                assert(load_path@ =~= spec_load_paths(path@, tag@).0);
                assert(backup@ =~= spec_load_paths(path@, tag@).1);
            }
            LoadPlan { use_original, backup_path: Some(backup), load_path }
        },
        _ => {
            let mut load_path = dir;
            load_path.append(tag.as_str());
            proof {
                assert(load_path@ =~= spec_load_paths(path@, tag@).0);
            }
            LoadPlan { use_original, backup_path: Some(path.clone()), load_path }
        },
    }
}

/// How long to keep waiting for a freshly written file to materialize.
#[derive(Debug, PartialEq, Eq)]
pub enum AwaitAction {
    /// The file is there: settle briefly, then load it.
    Proceed,
    /// Not there yet: sleep a short delay and look again.
    RetryAfterDelay,
    /// The retries are exhausted: give up on this load.
    GiveUp,
}

/// One step of the bounded wait for a file to finish materializing on disk
/// — protection against reading a partially written file on slow or
/// networked filesystems.
pub fn await_file_step(exists: bool, iterations_left: usize) -> (r: AwaitAction)
    ensures
        exists ==> r is Proceed,
        !exists && iterations_left > 0 ==> r is RetryAfterDelay,
        !exists && iterations_left == 0 ==> r is GiveUp,
{
    if exists {
        AwaitAction::Proceed
    } else if iterations_left > 0 {
        AwaitAction::RetryAfterDelay
    } else {
        AwaitAction::GiveUp
    }
}

/// Failures of the handle registry, told apart as the caller needs them:
/// an identifier nobody holds versus a handle whose native library is gone.
#[derive(Debug, PartialEq, Eq)]
pub enum LibraryError {
    /// The registry holds no handle under this identifier.
    MissingId,
    /// The handle exists but its native library is not loaded; calls
    /// against it fail without side effects.
    LibraryUnavailable { path: String },
}

/// One registered library handle.
pub struct LibraryEntry {
    /// The opaque identifier the registry handed out.
    pub id: u64,
    /// The backing file, owned by this handle.
    pub path: String,
    /// Whether the native library is currently loaded.
    pub loaded: bool,
}

/// What a release must do, in order: the native handle is unloaded first,
/// and only then is the backing file removed — never the reverse.
#[derive(Debug, PartialEq, Eq)]
pub enum ReleaseAction {
    UnloadNative,
    DeleteFile { path: String },
}

/// The process-wide registry of live library handles, keyed by the opaque
/// identifiers it hands out. Constructed once at process start and passed
/// to every component that loads libraries.
pub struct LibraryRegistry {
    pub entries: Vec<LibraryEntry>,
    pub next_id: u64,
}

impl LibraryRegistry {
    /// Identifiers are never reused: every entry's is unique and below the
    /// counter.
    pub open spec fn wf(&self) -> bool {
        &&& forall|i: int, j: int|
            #![trigger self.entries@[i].id, self.entries@[j].id]
            0 <= i < j < self.entries@.len() ==> self.entries@[i].id != self.entries@[j].id
        &&& forall|i: int|
            0 <= i < self.entries@.len() ==> #[trigger] self.entries@[i].id < self.next_id
    }
}

/// The first position holding the identifier, if any.
pub open spec fn spec_entry_lookup(entries: Seq<LibraryEntry>, id: u64) -> Option<int>
    decreases entries.len(),
{
    if entries.len() == 0 {
        None
    } else if entries[0].id == id {
        Some(0int)
    } else {
        match spec_entry_lookup(entries.skip(1), id) {
            Some(i) => Some(i + 1),
            None => None,
        }
    }
}

proof fn lemma_entry_lookup_characterization(entries: Seq<LibraryEntry>, id: u64)
    ensures
        match spec_entry_lookup(entries, id) {
            Some(i) => 0 <= i < entries.len() && entries[i].id == id && (forall|j: int|
                0 <= j < i ==> entries[j].id != id),
            None => forall|j: int| 0 <= j < entries.len() ==> entries[j].id != id,
        },
    decreases entries.len(),
{
    if entries.len() > 0 && entries[0].id != id {
        lemma_entry_lookup_characterization(entries.skip(1), id);
        assert forall|j: int| 1 <= j < entries.len() implies entries[j] == entries.skip(1)[j - 1]
            by {}
    }
}

proof fn lemma_entry_lookup_complete(entries: Seq<LibraryEntry>, id: u64, i: int)
    requires
        0 <= i < entries.len(),
        entries[i].id == id,
        forall|j: int| 0 <= j < i ==> entries[j].id != id,
    ensures
        spec_entry_lookup(entries, id) == Some(i),
{
    lemma_entry_lookup_characterization(entries, id);
}

impl LibraryRegistry {
    /// An empty registry.
    pub fn new() -> (r: LibraryRegistry)
        ensures
            r.entries@ == Seq::<LibraryEntry>::empty(),
            r.next_id == 1,
            r.wf(),
    {
        LibraryRegistry { entries: Vec::new(), next_id: 1 }
    }

    /// Register a freshly loaded handle under a new identifier.
    pub fn insert(&mut self, path: String, loaded: bool) -> (id: u64)
        requires
            old(self).wf(),
            old(self).next_id < u64::MAX,
        ensures
            final(self).wf(),
            id == old(self).next_id,
            final(self).next_id == old(self).next_id + 1,
            final(self).entries@ == old(self).entries@.push(
                LibraryEntry { id, path: path, loaded },
            ),
    {
        let id = self.next_id;
        self.next_id = self.next_id + 1;
        self.entries.push(LibraryEntry { id, path, loaded });
        id
    }

    /// The backing file a call under this identifier goes to, failing
    /// distinctly when the identifier is unknown versus when the handle
    /// exists with no loaded native library.
    pub fn call_target(&self, id: u64) -> (r: Result<String, LibraryError>)
        ensures
            match r {
                Ok(path) => (match spec_entry_lookup(self.entries@, id) {
                    Some(i) => self.entries@[i].loaded && path@ == self.entries@[i].path@,
                    None => false,
                }),
                Err(LibraryError::MissingId) => spec_entry_lookup(self.entries@, id) is None,
                Err(LibraryError::LibraryUnavailable { path }) => (match spec_entry_lookup(
                    self.entries@,
                    id,
                ) {
                    Some(i) => !self.entries@[i].loaded && path@ == self.entries@[i].path@,
                    None => false,
                }),
            },
    {
        let mut i: usize = 0;
        while i < self.entries.len()
            invariant
                i <= self.entries@.len(),
                forall|j: int| 0 <= j < i ==> self.entries@[j].id != id,
            decreases self.entries@.len() - i,
        {
            if self.entries[i].id == id {
                proof {
                    lemma_entry_lookup_complete(self.entries@, id, i as int);
                }
                if self.entries[i].loaded {
                    return Ok(self.entries[i].path.clone());
                } else {
                    return Err(
                        LibraryError::LibraryUnavailable { path: self.entries[i].path.clone() },
                    );
                }
            }
            i = i + 1;
        }
        proof {
            lemma_entry_lookup_characterization(self.entries@, id);
        }
        Err(LibraryError::MissingId)
    }

    /// Drop the handle: it leaves the registry, and the caller must perform
    /// the returned actions in order — unload the native library first if
    /// one is loaded, delete the backing temporary file only after.
    pub fn release(&mut self, id: u64) -> (r: Result<Vec<ReleaseAction>, LibraryError>)
        requires
            old(self).wf(),
        ensures
            final(self).wf(),
            final(self).next_id == old(self).next_id,
            match r {
                Ok(actions) => (match spec_entry_lookup(old(self).entries@, id) {
                    Some(i) => final(self).entries@ == old(self).entries@.remove(i)
                        && spec_entry_lookup(final(self).entries@, id) is None && (if old(
                        self,
                    ).entries@[i].loaded {
                        actions@ == seq![
                            ReleaseAction::UnloadNative,
                            ReleaseAction::DeleteFile { path: old(self).entries@[i].path },
                        ]
                    } else {
                        actions@ == seq![
                            ReleaseAction::DeleteFile { path: old(self).entries@[i].path },
                        ]
                    }),
                    None => false,
                }),
                Err(LibraryError::MissingId) => spec_entry_lookup(old(self).entries@, id) is None
                    && *final(self) == *old(self),
                Err(LibraryError::LibraryUnavailable { .. }) => false,
            },
    {
        let mut i: usize = 0;
        while i < self.entries.len()
            invariant
                old(self).wf(),
                i <= self.entries@.len(),
                forall|j: int| 0 <= j < i ==> self.entries@[j].id != id,
                *self == *old(self),
            decreases self.entries@.len() - i,
        {
            if self.entries[i].id == id {
                proof {
                    lemma_entry_lookup_complete(self.entries@, id, i as int);
                }
                let entry = self.entries.remove(i);
                proof {
                    let pre = old(self).entries@;
                    assert(pre.remove(i as int) =~= pre.subrange(0, i as int) + pre.subrange(
                        i + 1,
                        pre.len() as int,
                    ));
                    assert forall|j: int|
                        0 <= j < self.entries@.len() implies #[trigger] self.entries@[j] == (if j
                        < i {
                        pre[j]
                    } else {
                        pre[j + 1]
                    }) by {}
                    assert(pre[i as int].id == id);
                    assert forall|j: int|
                        0 <= j < self.entries@.len() implies #[trigger] self.entries@[j].id
                        != id by {
                        if j < i {
                            assert(pre[j].id != pre[i as int].id);
                        } else {
                            assert(pre[i as int].id != pre[j + 1].id);
                        }
                    }
                    lemma_entry_lookup_characterization(self.entries@, id);
                    if spec_entry_lookup(self.entries@, id) is Some {
                        let w = spec_entry_lookup(self.entries@, id)->Some_0;
                        assert(self.entries@[w].id == id);
                    }
                }
                let mut actions: Vec<ReleaseAction> = Vec::new();
                if entry.loaded {
                    actions.push(ReleaseAction::UnloadNative);
                }
                actions.push(ReleaseAction::DeleteFile { path: entry.path });
                return Ok(actions);
            }
            i = i + 1;
        }
        proof {
            lemma_entry_lookup_characterization(self.entries@, id);
        }
        Err(LibraryError::MissingId)
    }
}

} // verus!
