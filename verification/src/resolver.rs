//! Dependency resolver: the content-addressed closure of native libraries an
//! artifact needs.
//!
//! The resolver works over a flat store of candidate files — one entry per
//! file found directly inside a search directory, in directory order, so that
//! when two directories hold same-named files the earlier directory wins.
//! Starting from the root artifacts it reads each file's imports, resolves
//! every imported name against the store, and recurses into what it finds,
//! keeping a visited set to break cycles. Missing names are skipped — many
//! imports are satisfied by the operating system's own search — while a root
//! that is not in the store, or a recognized binary that does not parse,
//! fails the whole resolution. Every resolved file is then hashed and emitted
//! as one record carrying its direct-dependency names.

use vstd::prelude::*;
use vstd::string::StringExecFns;

use crate::imports::{names_view, read_imports, spec_read_imports};

verus! {

/// A candidate file: its name, where it lies, and its bytes.
pub struct FileEntry {
    pub name: String,
    pub local_path: String,
    pub bytes: Vec<u8>,
}

/// The view of a candidate file.
pub struct FileEntryV {
    pub name: Seq<char>,
    pub local_path: Seq<char>,
    pub bytes: Seq<u8>,
}

impl View for FileEntry {
    type V = FileEntryV;

    open spec fn view(&self) -> FileEntryV {
        FileEntryV { name: self.name@, local_path: self.local_path@, bytes: self.bytes@ }
    }
}

/// The flat map of every candidate file, in search order: of two entries
/// with the same name, the earlier wins.
pub struct FileStore {
    pub entries: Vec<FileEntry>,
}

impl View for FileStore {
    type V = Seq<FileEntryV>;

    open spec fn view(&self) -> Seq<FileEntryV> {
        self.entries@.map_values(|e: FileEntry| e@)
    }
}

/// The first store index holding a file of this name, if any.
pub open spec fn spec_store_find(store: Seq<FileEntryV>, name: Seq<char>) -> Option<int>
    decreases store.len(),
{
    if store.len() == 0 {
        None
    } else if store[0].name == name {
        Some(0int)
    } else {
        match spec_store_find(store.skip(1), name) {
            Some(i) => Some(i + 1),
            None => None,
        }
    }
}

/// What a find result means: a found index is in range, carries the name,
/// and nothing earlier does; a miss means no entry carries the name.
pub proof fn lemma_store_find_characterization(store: Seq<FileEntryV>, name: Seq<char>)
    ensures
        match spec_store_find(store, name) {
            Some(i) => 0 <= i < store.len() && store[i].name == name && (forall|j: int|
                0 <= j < i ==> store[j].name != name),
            None => forall|j: int| 0 <= j < store.len() ==> store[j].name != name,
        },
    decreases store.len(),
{
    if store.len() > 0 && store[0].name != name {
        lemma_store_find_characterization(store.skip(1), name);
        assert forall|j: int| 1 <= j < store.len() implies store[j] == store.skip(1)[j - 1] by {}
    }
}

/// The converse: an entry of the name behind only entries of other names is
/// exactly what the find returns.
pub proof fn lemma_store_find_complete(store: Seq<FileEntryV>, name: Seq<char>, i: int)
    requires
        0 <= i < store.len(),
        store[i].name == name,
        forall|j: int| 0 <= j < i ==> store[j].name != name,
    ensures
        spec_store_find(store, name) == Some(i),
    decreases store.len(),
{
    if i > 0 {
        lemma_store_find_complete(store.skip(1), name, i - 1);
    }
}

impl FileStore {
    /// Look a name up: the first entry carrying it, in search order.
    pub fn find(&self, name: &String) -> (r: Option<usize>)
        ensures
            match r {
                Some(i) => spec_store_find(self@, name@) == Some(i as int),
                None => spec_store_find(self@, name@) is None,
            },
    {
        let mut i: usize = 0;
        while i < self.entries.len()
            invariant
                i <= self@.len(),
                self@.len() == self.entries@.len(),
                forall|j: int| 0 <= j < i ==> self@[j].name != name@,
            decreases self@.len() - i,
        {
            if self.entries[i].name == *name {
                proof {
                    lemma_store_find_complete(self@, name@, i as int);
                }
                return Some(i);
            }
            i = i + 1;
        }
        proof {
            lemma_store_find_characterization(self@, name@);
        }
        None
    }
}

/// One resolved library: its name and the store entry that won for it.
pub struct ResolvedItemV {
    pub name: Seq<char>,
    pub idx: int,
}

/// The view of the resolver's working list.
pub open spec fn resolved_view(v: Seq<(String, usize)>) -> Seq<ResolvedItemV> {
    v.map_values(|p: (String, usize)| ResolvedItemV { name: p.0@, idx: p.1 as int })
}

/// Whether a name is already resolved.
pub open spec fn contains_name(resolved: Seq<ResolvedItemV>, name: Seq<char>) -> bool {
    exists|i: int| 0 <= i < resolved.len() && resolved[i].name == name
}

/// Resolve a list of imported names against the store, in order: an empty
/// name, an already-resolved name and a name no store entry carries are
/// skipped; anything else joins the resolved list with its first store
/// match.
pub open spec fn spec_add_imports(
    store: Seq<FileEntryV>,
    resolved: Seq<ResolvedItemV>,
    imports: Seq<Seq<char>>,
) -> Seq<ResolvedItemV>
    decreases imports.len(),
{
    if imports.len() == 0 {
        resolved
    } else {
        let name = imports[0];
        let next = if name.len() == 0 || contains_name(resolved, name) {
            resolved
        } else {
            match spec_store_find(store, name) {
                Some(i) => resolved.push(ResolvedItemV { name, idx: i }),
                None => resolved,
            }
        };
        spec_add_imports(store, next, imports.skip(1))
    }
}

/// The roots entered into the resolved list, or the first root the store
/// does not hold.
pub enum RootsOutcome {
    Entered(Seq<ResolvedItemV>),
    Missing(Seq<char>),
}

/// Enter the root artifacts into the resolved list, in order, deduplicated
/// by name; a root the store does not hold fails the resolution.
pub open spec fn spec_add_roots(
    store: Seq<FileEntryV>,
    resolved: Seq<ResolvedItemV>,
    roots: Seq<Seq<char>>,
) -> RootsOutcome
    decreases roots.len(),
{
    if roots.len() == 0 {
        RootsOutcome::Entered(resolved)
    } else if contains_name(resolved, roots[0]) {
        spec_add_roots(store, resolved, roots.skip(1))
    } else {
        match spec_store_find(store, roots[0]) {
            Some(i) => spec_add_roots(
                store,
                resolved.push(ResolvedItemV { name: roots[0], idx: i }),
                roots.skip(1),
            ),
            None => RootsOutcome::Missing(roots[0]),
        }
    }
}

/// Where the closure walk ends: every resolved library processed, with its
/// direct-dependency names recorded per item; or an item whose bytes did not
/// parse; or — never reached from a well-formed start, as the resolver
/// proves — the fuel bound hit.
pub enum WalkOutcome {
    Processed { resolved: Seq<ResolvedItemV>, deps: Seq<Seq<Seq<char>>> },
    Malformed { name: Seq<char> },
    FuelExhausted,
}

/// The closure walk: process each resolved item in discovery order, reading
/// its imports and resolving them into the list, until every item is
/// processed. `deps` collects each processed item's imports; its length is
/// the number of items processed so far.
pub open spec fn spec_walk(
    store: Seq<FileEntryV>,
    resolved: Seq<ResolvedItemV>,
    deps: Seq<Seq<Seq<char>>>,
    fuel: nat,
) -> WalkOutcome
    decreases fuel,
{
    if deps.len() >= resolved.len() {
        WalkOutcome::Processed { resolved, deps }
    } else if fuel == 0 {
        WalkOutcome::FuelExhausted
    } else {
        let item = resolved[deps.len() as int];
        match spec_read_imports(store[item.idx].bytes) {
            None => WalkOutcome::Malformed { name: item.name },
            Some(imports) => spec_walk(
                store,
                spec_add_imports(store, resolved, imports),
                deps.push(imports),
                (fuel - 1) as nat,
            ),
        }
    }
}

/// The view of one emitted record.
pub struct HashedFileRecordV {
    pub name: Seq<char>,
    pub local_path: Seq<char>,
    pub relative_path: Seq<char>,
    pub hash: Seq<u8>,
    pub dependencies: Seq<Seq<char>>,
}

/// The record emitted for one resolved item: the file's current bytes
/// hashed, its distribution path derived from its name, and its direct
/// dependency names as read from it.
pub open spec fn spec_record(
    store: Seq<FileEntryV>,
    item: ResolvedItemV,
    deps: Seq<Seq<char>>,
) -> HashedFileRecordV {
    HashedFileRecordV {
        name: item.name,
        local_path: store[item.idx].local_path,
        relative_path: "./"@ + item.name,
        hash: crate::hashing::digest_of(store[item.idx].bytes),
        dependencies: deps,
    }
}

/// The records of a finished walk, in discovery order.
pub open spec fn spec_records(
    store: Seq<FileEntryV>,
    resolved: Seq<ResolvedItemV>,
    deps: Seq<Seq<Seq<char>>>,
) -> Seq<HashedFileRecordV> {
    Seq::new(resolved.len(), |k: int| spec_record(store, resolved[k], deps[k]))
}

/// What resolving a set of roots against a store yields.
pub enum ResolveOutcome {
    Resolved(Seq<HashedFileRecordV>),
    RootMissing(Seq<char>),
    MalformedArtifact(Seq<char>),
    FuelExhausted,
}

/// The whole resolution, as a function of the store and the roots alone:
/// enter the roots, walk the closure, and emit one record per resolved name.
pub open spec fn spec_resolve(store: Seq<FileEntryV>, roots: Seq<Seq<char>>) -> ResolveOutcome {
    match spec_add_roots(store, Seq::empty(), roots) {
        RootsOutcome::Missing(name) => ResolveOutcome::RootMissing(name),
        RootsOutcome::Entered(resolved) => match spec_walk(
            store,
            resolved,
            Seq::empty(),
            (store.len() + 1) as nat,
        ) {
            WalkOutcome::Processed { resolved, deps } => ResolveOutcome::Resolved(
                spec_records(store, resolved, deps),
            ),
            WalkOutcome::Malformed { name } => ResolveOutcome::MalformedArtifact(name),
            WalkOutcome::FuelExhausted => ResolveOutcome::FuelExhausted,
        },
    }
}

/// The resolver's working-list discipline: names are distinct and each item
/// records the first store match of its name.
pub open spec fn resolved_wf(store: Seq<FileEntryV>, resolved: Seq<ResolvedItemV>) -> bool {
    &&& forall|i: int, j: int|
        0 <= i < j < resolved.len() ==> resolved[i].name != resolved[j].name
    &&& forall|i: int|
        0 <= i < resolved.len() ==> #[trigger] spec_store_find(store, resolved[i].name) == Some(
            resolved[i].idx,
        )
}

/// Distinct names, each bound to the first store entry carrying it, cannot
/// outnumber the store's entries.
pub proof fn lemma_resolved_len_bound(store: Seq<FileEntryV>, resolved: Seq<ResolvedItemV>)
    requires
        resolved_wf(store, resolved),
    ensures
        resolved.len() <= store.len(),
{
    let idxs = Seq::new(resolved.len(), |i: int| resolved[i].idx);
    assert forall|i: int|
        0 <= i < resolved.len() implies 0 <= idxs[i] < store.len() && store[idxs[i]].name
        == resolved[i].name by {
        lemma_store_find_characterization(store, resolved[i].name);
    }
    assert(idxs.no_duplicates()) by {
        assert forall|i: int, j: int|
            0 <= i < idxs.len() && 0 <= j < idxs.len() && i != j implies idxs[i] != idxs[j] by {
            lemma_store_find_characterization(store, resolved[i].name);
            lemma_store_find_characterization(store, resolved[j].name);
        }
    }
    idxs.unique_seq_to_set();
    assert(idxs.to_set().subset_of(vstd::set_lib::set_int_range(0, store.len() as int)))
        by {
        assert forall|x: int| idxs.to_set().contains(x) implies vstd::set_lib::set_int_range(
            0,
            store.len() as int,
        ).contains(x) by {
            assert(idxs.contains(x));
            let w = choose|w: int| 0 <= w < idxs.len() && idxs[w] == x;
            assert(0 <= idxs[w] < store.len());
        }
    }
    vstd::set_lib::lemma_int_range(0, store.len() as int);
    vstd::set_lib::lemma_len_subset(
        idxs.to_set(),
        vstd::set_lib::set_int_range(0, store.len() as int),
    );
}

proof fn lemma_add_imports_preserves_wf(
    store: Seq<FileEntryV>,
    resolved: Seq<ResolvedItemV>,
    imports: Seq<Seq<char>>,
)
    requires
        resolved_wf(store, resolved),
    ensures
        resolved_wf(store, spec_add_imports(store, resolved, imports)),
    decreases imports.len(),
{
    if imports.len() > 0 {
        let name = imports[0];
        let next = if name.len() == 0 || contains_name(resolved, name) {
            resolved
        } else {
            match spec_store_find(store, name) {
                Some(i) => resolved.push(ResolvedItemV { name, idx: i }),
                None => resolved,
            }
        };
        assert(resolved_wf(store, next));
        lemma_add_imports_preserves_wf(store, next, imports.skip(1));
    }
}

proof fn lemma_add_roots_preserves_wf(
    store: Seq<FileEntryV>,
    resolved: Seq<ResolvedItemV>,
    roots: Seq<Seq<char>>,
)
    requires
        resolved_wf(store, resolved),
    ensures
        spec_add_roots(store, resolved, roots) matches RootsOutcome::Entered(r) ==> resolved_wf(
            store,
            r,
        ),
    decreases roots.len(),
{
    if roots.len() > 0 {
        if contains_name(resolved, roots[0]) {
            lemma_add_roots_preserves_wf(store, resolved, roots.skip(1));
        } else {
            match spec_store_find(store, roots[0]) {
                Some(i) => {
                    let pushed = resolved.push(ResolvedItemV { name: roots[0], idx: i });
                    assert(resolved_wf(store, pushed));
                    lemma_add_roots_preserves_wf(store, pushed, roots.skip(1));
                },
                None => {},
            }
        }
    }
}

proof fn lemma_walk_preserves_wf(
    store: Seq<FileEntryV>,
    resolved: Seq<ResolvedItemV>,
    deps: Seq<Seq<Seq<char>>>,
    fuel: nat,
)
    requires
        resolved_wf(store, resolved),
        deps.len() <= resolved.len(),
    ensures
        spec_walk(store, resolved, deps, fuel) matches WalkOutcome::Processed {
            resolved: r,
            deps: d,
        } ==> resolved_wf(store, r) && d.len() == r.len(),
    decreases fuel,
{
    if deps.len() >= resolved.len() || fuel == 0 {
    } else {
        let item = resolved[deps.len() as int];
        match spec_read_imports(store[item.idx].bytes) {
            None => {},
            Some(imports) => {
                lemma_add_imports_preserves_wf(store, resolved, imports);
                lemma_add_imports_grows(store, resolved, imports);
                lemma_walk_preserves_wf(
                    store,
                    spec_add_imports(store, resolved, imports),
                    deps.push(imports),
                    (fuel - 1) as nat,
                );
            },
        }
    }
}

proof fn lemma_add_imports_grows(
    store: Seq<FileEntryV>,
    resolved: Seq<ResolvedItemV>,
    imports: Seq<Seq<char>>,
)
    ensures
        spec_add_imports(store, resolved, imports).len() >= resolved.len(),
    decreases imports.len(),
{
    if imports.len() > 0 {
        let name = imports[0];
        let next = if name.len() == 0 || contains_name(resolved, name) {
            resolved
        } else {
            match spec_store_find(store, name) {
                Some(i) => resolved.push(ResolvedItemV { name, idx: i }),
                None => resolved,
            }
        };
        lemma_add_imports_grows(store, next, imports.skip(1));
    }
}

/// No torn reads: every record of a finished resolution carries the digest
/// of the bytes of the store entry its name resolves to — the very file at
/// its recorded local path.
pub proof fn lemma_records_hash_their_bytes(
    store: Seq<FileEntryV>,
    roots: Seq<Seq<char>>,
    records: Seq<HashedFileRecordV>,
)
    requires
        spec_resolve(store, roots) == ResolveOutcome::Resolved(records),
    ensures
        forall|k: int|
            0 <= k < records.len() ==> exists|i: int|
                0 <= i < store.len() && spec_store_find(store, records[k].name) == Some(i) && (
                #[trigger] records[k]).local_path == store[i].local_path && records[k].hash
                    == crate::hashing::digest_of(store[i].bytes),
{
    lemma_add_roots_preserves_wf(store, Seq::empty(), roots);
    match spec_add_roots(store, Seq::empty(), roots) {
        RootsOutcome::Missing(_) => {},
        RootsOutcome::Entered(resolved0) => {
            lemma_walk_preserves_wf(store, resolved0, Seq::empty(), (store.len() + 1) as nat);
            match spec_walk(store, resolved0, Seq::empty(), (store.len() + 1) as nat) {
                WalkOutcome::Processed { resolved, deps } => {
                    assert forall|k: int| 0 <= k < records.len() implies exists|i: int|
                        0 <= i < store.len() && spec_store_find(store, records[k].name) == Some(i)
                            && (#[trigger] records[k]).local_path == store[i].local_path
                            && records[k].hash == crate::hashing::digest_of(store[i].bytes) by {
                        let item = resolved[k];
                        lemma_store_find_characterization(store, item.name);
                        assert(records[k] == spec_record(store, item, deps[k]));
                        assert(0 <= item.idx < store.len() && spec_store_find(store, records[k].name)
                            == Some(item.idx) && records[k].local_path == store[item.idx].local_path
                            && records[k].hash == crate::hashing::digest_of(store[item.idx].bytes));
                    }
                },
                _ => {},
            }
        },
    }
}

proof fn lemma_add_imports_monotone(
    store: Seq<FileEntryV>,
    resolved: Seq<ResolvedItemV>,
    imports: Seq<Seq<char>>,
    x: Seq<char>,
)
    requires
        contains_name(resolved, x),
    ensures
        contains_name(spec_add_imports(store, resolved, imports), x),
    decreases imports.len(),
{
    if imports.len() > 0 {
        let name = imports[0];
        let next = if name.len() == 0 || contains_name(resolved, name) {
            resolved
        } else {
            match spec_store_find(store, name) {
                Some(i) => resolved.push(ResolvedItemV { name, idx: i }),
                None => resolved,
            }
        };
        assert(contains_name(next, x)) by {
            let w = choose|w: int| 0 <= w < resolved.len() && resolved[w].name == x;
            assert(next[w].name == x);
        }
        lemma_add_imports_monotone(store, next, imports.skip(1), x);
    }
}

proof fn lemma_add_imports_membership(
    store: Seq<FileEntryV>,
    resolved: Seq<ResolvedItemV>,
    imports: Seq<Seq<char>>,
    d: int,
)
    requires
        0 <= d < imports.len(),
        imports[d].len() > 0,
        spec_store_find(store, imports[d]) is Some,
    ensures
        contains_name(spec_add_imports(store, resolved, imports), imports[d]),
    decreases imports.len(),
{
    let name = imports[0];
    let next = if name.len() == 0 || contains_name(resolved, name) {
        resolved
    } else {
        match spec_store_find(store, name) {
            Some(i) => resolved.push(ResolvedItemV { name, idx: i }),
            None => resolved,
        }
    };
    if d == 0 {
        assert(contains_name(next, name)) by {
            if name.len() == 0 {
            } else if contains_name(resolved, name) {
                let w = choose|w: int| 0 <= w < resolved.len() && resolved[w].name == name;
                assert(next[w].name == name);
            } else {
                assert(next[next.len() - 1].name == name);
            }
        }
        lemma_add_imports_monotone(store, next, imports.skip(1), name);
    } else {
        assert(imports.skip(1)[d - 1] == imports[d]);
        lemma_add_imports_membership(store, next, imports.skip(1), d - 1);
    }
}

proof fn lemma_walk_keeps_names(
    store: Seq<FileEntryV>,
    resolved: Seq<ResolvedItemV>,
    deps: Seq<Seq<Seq<char>>>,
    fuel: nat,
    x: Seq<char>,
)
    requires
        contains_name(resolved, x),
    ensures
        spec_walk(store, resolved, deps, fuel) matches WalkOutcome::Processed {
            resolved: rf,
            deps: df,
        } ==> contains_name(rf, x),
    decreases fuel,
{
    if deps.len() >= resolved.len() || fuel == 0 {
    } else {
        let item = resolved[deps.len() as int];
        match spec_read_imports(store[item.idx].bytes) {
            None => {},
            Some(imports) => {
                lemma_add_imports_monotone(store, resolved, imports, x);
                lemma_walk_keeps_names(
                    store,
                    spec_add_imports(store, resolved, imports),
                    deps.push(imports),
                    (fuel - 1) as nat,
                    x,
                );
            },
        }
    }
}

proof fn lemma_walk_closes(
    store: Seq<FileEntryV>,
    resolved: Seq<ResolvedItemV>,
    deps: Seq<Seq<Seq<char>>>,
    fuel: nat,
)
    requires
        deps.len() <= resolved.len(),
        forall|k: int, d: int|
            0 <= k < deps.len() && 0 <= d < deps[k].len() && deps[k][d].len() > 0
                && spec_store_find(store, #[trigger] deps[k][d]) is Some ==> contains_name(
                resolved,
                deps[k][d],
            ),
    ensures
        spec_walk(store, resolved, deps, fuel) matches WalkOutcome::Processed {
            resolved: rf,
            deps: df,
        } ==> forall|k: int, d: int|
            0 <= k < df.len() && 0 <= d < df[k].len() && df[k][d].len() > 0 && spec_store_find(
                store,
                #[trigger] df[k][d],
            ) is Some ==> contains_name(rf, df[k][d]),
    decreases fuel,
{
    if deps.len() >= resolved.len() || fuel == 0 {
    } else {
        let item = resolved[deps.len() as int];
        match spec_read_imports(store[item.idx].bytes) {
            None => {},
            Some(imports) => {
                let next = spec_add_imports(store, resolved, imports);
                assert forall|k: int, d: int|
                    0 <= k < deps.push(imports).len() && 0 <= d < deps.push(imports)[k].len()
                        && deps.push(imports)[k][d].len() > 0 && spec_store_find(
                        store,
                        #[trigger] deps.push(imports)[k][d],
                    ) is Some implies contains_name(next, deps.push(imports)[k][d]) by {
                    if k < deps.len() {
                        lemma_add_imports_monotone(store, resolved, imports, deps[k][d]);
                    } else {
                        lemma_add_imports_membership(store, resolved, imports, d);
                    }
                }
                lemma_add_imports_grows(store, resolved, imports);
                lemma_walk_closes(store, next, deps.push(imports), (fuel - 1) as nat);
            },
        }
    }
}

/// No half-resolved records are ever published: every dependency name of an
/// emitted record that some store entry could satisfy is itself among the
/// emitted records.
pub proof fn lemma_closure_is_closed(
    store: Seq<FileEntryV>,
    roots: Seq<Seq<char>>,
    records: Seq<HashedFileRecordV>,
)
    requires
        spec_resolve(store, roots) == ResolveOutcome::Resolved(records),
    ensures
        forall|k: int, d: int|
            0 <= k < records.len() && 0 <= d < records[k].dependencies.len()
                && records[k].dependencies[d].len() > 0 && spec_store_find(
                store,
                #[trigger] records[k].dependencies[d],
            ) is Some ==> exists|j: int|
                0 <= j < records.len() && records[j].name == records[k].dependencies[d],
{
    match spec_add_roots(store, Seq::empty(), roots) {
        RootsOutcome::Missing(_) => {},
        RootsOutcome::Entered(resolved0) => {
            lemma_add_roots_preserves_wf(store, Seq::empty(), roots);
            lemma_walk_preserves_wf(store, resolved0, Seq::empty(), (store.len() + 1) as nat);
            lemma_walk_closes(store, resolved0, Seq::empty(), (store.len() + 1) as nat);
            match spec_walk(store, resolved0, Seq::empty(), (store.len() + 1) as nat) {
                WalkOutcome::Processed { resolved, deps } => {
                    assert forall|k: int, d: int|
                        0 <= k < records.len() && 0 <= d < records[k].dependencies.len()
                            && records[k].dependencies[d].len() > 0 && spec_store_find(
                            store,
                            #[trigger] records[k].dependencies[d],
                        ) is Some implies exists|j: int|
                        0 <= j < records.len() && records[j].name == records[k].dependencies[d] by {
                        assert(records[k] == spec_record(store, resolved[k], deps[k]));
                        assert(records[k].dependencies == deps[k]);
                        assert(contains_name(resolved, deps[k][d]));
                        let w = choose|w: int|
                            0 <= w < resolved.len() && resolved[w].name == deps[k][d];
                        assert(records[w] == spec_record(store, resolved[w], deps[w]));
                        assert(records[w].name == records[k].dependencies[d]);
                    }
                },
                _ => {},
            }
        },
    }
}

/// Resolution is deterministic: the same store contents and the same root
/// set admit exactly one list of records — in particular, two resolutions
/// of the same bytes against the same search order agree on every name and
/// hash.
pub proof fn lemma_resolution_deterministic(
    store: Seq<FileEntryV>,
    roots: Seq<Seq<char>>,
    r1: Seq<HashedFileRecordV>,
    r2: Seq<HashedFileRecordV>,
)
    requires
        spec_resolve(store, roots) == ResolveOutcome::Resolved(r1),
        spec_resolve(store, roots) == ResolveOutcome::Resolved(r2),
    ensures
        r1 == r2,
{
}

/// Resolution failures that are fatal to one build.
#[derive(Debug, PartialEq, Eq)]
pub enum ResolveError {
    /// A root artifact is not in the store.
    RootMissing { name: String },
    /// A resolved file announced a known container format but did not parse.
    MalformedArtifact { name: String },
}

/// One artifact of a finished build: its name, where it lies locally, its
/// distribution-relative path, the digest of its bytes and its direct
/// dependency names. Immutable after creation.
#[derive(Debug)]
pub struct HashedFileRecord {
    pub name: String,
    pub local_path: String,
    pub relative_path: String,
    pub hash: Vec<u8>,
    pub dependencies: Vec<String>,
}

impl View for HashedFileRecord {
    type V = HashedFileRecordV;

    open spec fn view(&self) -> HashedFileRecordV {
        HashedFileRecordV {
            name: self.name@,
            local_path: self.local_path@,
            relative_path: self.relative_path@,
            hash: self.hash@,
            dependencies: names_view(self.dependencies@),
        }
    }
}

/// The views of a list of records.
pub open spec fn records_view(v: Seq<HashedFileRecord>) -> Seq<HashedFileRecordV> {
    v.map_values(|r: HashedFileRecord| r@)
}

impl HashedFileRecord {
    /// The record for one file: its digest is computed from the given bytes
    /// — content identity, not a timestamp — and its distribution path is
    /// derived from its name.
    pub fn from_file(
        name: String,
        local_path: String,
        bytes: &Vec<u8>,
        dependencies: Vec<String>,
    ) -> (r: HashedFileRecord)
        ensures
            r@ == (HashedFileRecordV {
                name: name@,
                local_path: local_path@,
                relative_path: "./"@ + name@,
                hash: crate::hashing::digest_of(bytes@),
                dependencies: names_view(dependencies@),
            }),
            r@.hash.len() == 32,
    {
        let hash = crate::hashing::hash_bytes(bytes);
        let mut relative_path = "./".to_owned();
        relative_path.append(name.as_str());
        HashedFileRecord { name, local_path, relative_path, hash, dependencies }
    }
}

/// Whether the working list already holds this name.
fn contains_resolved(resolved: &Vec<(String, usize)>, name: &String) -> (r: bool)
    ensures
        r == contains_name(resolved_view(resolved@), name@),
{
    let mut i: usize = 0;
    while i < resolved.len()
        invariant
            i <= resolved@.len(),
            forall|j: int| 0 <= j < i ==> resolved_view(resolved@)[j].name != name@,
        decreases resolved@.len() - i,
    {
        if resolved[i].0 == *name {
            proof {
                assert(resolved_view(resolved@)[i as int].name == name@);
            }
            return true;
        }
        i = i + 1;
    }
    false
}

impl FileStore {
    /// Resolve the root artifacts against the store: walk every import to
    /// its first store match, recurse into what is found, and emit one
    /// hashed record per resolved name. A root the store does not hold, or
    /// a resolved file that announces a known format but does not parse,
    /// fails the resolution; an imported name no entry carries is skipped.
    pub fn resolve(&self, roots: &Vec<String>) -> (r: Result<Vec<HashedFileRecord>, ResolveError>)
        ensures
            match r {
                Ok(v) => spec_resolve(self@, names_view(roots@)) == ResolveOutcome::Resolved(
                    records_view(v@),
                ),
                Err(e) => match e {
                    ResolveError::RootMissing { name } => spec_resolve(self@, names_view(roots@))
                        == ResolveOutcome::RootMissing(name@),
                    ResolveError::MalformedArtifact { name } => spec_resolve(
                        self@,
                        names_view(roots@),
                    ) == ResolveOutcome::MalformedArtifact(name@),
                },
            },
    {
        let ghost store_v = self@;
        let ghost roots_v = names_view(roots@);
        let mut resolved: Vec<(String, usize)> = Vec::new();

        // Enter the roots, deduplicated by name.
        let mut ri: usize = 0;
        proof {
            assert(roots_v.skip(0) =~= roots_v);
            assert(resolved_view(resolved@) =~= Seq::<ResolvedItemV>::empty());
        }
        while ri < roots.len()
            invariant
                ri <= roots@.len(),
                store_v == self@,
                roots_v == names_view(roots@),
                roots_v.len() == roots@.len(),
                resolved_wf(store_v, resolved_view(resolved@)),
                spec_add_roots(store_v, resolved_view(resolved@), roots_v.skip(ri as int))
                    == spec_add_roots(store_v, Seq::empty(), roots_v),
            decreases roots@.len() - ri,
        {
            proof {
                assert(roots_v.skip(ri as int)[0] == roots@[ri as int]@);
                assert(roots_v.skip(ri as int).skip(1) =~= roots_v.skip(ri as int + 1));
            }
            let root = &roots[ri];
            if !contains_resolved(&resolved, root) {
                match self.find(root) {
                    Some(i) => {
                        let ghost pre = resolved_view(resolved@);
                        resolved.push((root.clone(), i));
                        proof {
                            assert(resolved_view(resolved@) =~= pre.push(
                                ResolvedItemV { name: root@, idx: i as int },
                            ));
                        }
                    },
                    None => {
                        return Err(ResolveError::RootMissing { name: root.clone() });
                    },
                }
            }
            ri = ri + 1;
        }
        proof {
            assert(roots_v.skip(roots@.len() as int) =~= Seq::<Seq<char>>::empty());
        }

        // Walk the closure: process each resolved item once, in discovery
        // order, resolving its imports into the tail of the list.
        let ghost resolved0 = resolved_view(resolved@);
        let ghost fuel0 = (store_v.len() + 1) as nat;
        let ghost walk0 = spec_walk(store_v, resolved0, Seq::empty(), fuel0);
        let mut out: Vec<HashedFileRecord> = Vec::new();
        let ghost mut deps_g: Seq<Seq<Seq<char>>> = Seq::empty();
        let mut k: usize = 0;
        while k < resolved.len()
            invariant
                store_v == self@,
                store_v.len() == self.entries@.len(),
                fuel0 == store_v.len() + 1,
                spec_add_roots(store_v, Seq::empty(), roots_v) == RootsOutcome::Entered(resolved0),
                walk0 == spec_walk(store_v, resolved0, Seq::empty(), fuel0),
                roots_v == names_view(roots@),
                k == deps_g.len(),
                k <= resolved@.len(),
                k == out@.len(),
                resolved_wf(store_v, resolved_view(resolved@)),
                spec_walk(store_v, resolved_view(resolved@), deps_g, (fuel0 - k) as nat) == walk0,
                forall|j: int|
                    0 <= j < k ==> #[trigger] out@[j]@ == spec_record(
                        store_v,
                        resolved_view(resolved@)[j],
                        deps_g[j],
                    ),
            decreases fuel0 - k,
        {
            proof {
                lemma_resolved_len_bound(store_v, resolved_view(resolved@));
                lemma_store_find_characterization(
                    store_v,
                    resolved_view(resolved@)[k as int].name,
                );
            }
            let current_name = resolved[k].0.clone();
            let idx = resolved[k].1;
            proof {
                assert(store_v[idx as int] == self.entries@[idx as int]@);
            }
            let ghost pre_resolved = resolved_view(resolved@);
            let imports = match read_imports(&self.entries[idx].bytes) {
                Ok(v) => v,
                Err(_) => {
                    proof {
                        let rv = resolved_view(resolved@);
                        assert(rv[k as int].name == current_name@);
                        assert(rv[k as int].idx == idx as int);
                        assert(spec_read_imports(store_v[idx as int].bytes) is None);
                        assert(spec_walk(store_v, rv, deps_g, (fuel0 - k) as nat)
                            == (WalkOutcome::Malformed { name: current_name@ }));
                    }
                    return Err(ResolveError::MalformedArtifact { name: current_name });
                },
            };
            let ghost imports_v = names_view(imports@);

            // Resolve this item's imports into the working list.
            let mut m: usize = 0;
            proof {
                assert(imports_v.skip(0) =~= imports_v);
            }
            while m < imports.len()
                invariant
                    m <= imports@.len(),
                    store_v == self@,
                    imports_v == names_view(imports@),
                    imports_v.len() == imports@.len(),
                    resolved_wf(store_v, resolved_view(resolved@)),
                    spec_add_imports(store_v, resolved_view(resolved@), imports_v.skip(m as int))
                        == spec_add_imports(store_v, pre_resolved, imports_v),
                    pre_resolved.len() <= resolved_view(resolved@).len(),
                    resolved_view(resolved@).take(pre_resolved.len() as int) == pre_resolved,
                decreases imports@.len() - m,
            {
                proof {
                    assert(imports_v.skip(m as int)[0] == imports@[m as int]@);
                    assert(imports_v.skip(m as int).skip(1) =~= imports_v.skip(m as int + 1));
                }
                if !imports[m].as_str().is_empty() {
                    if !contains_resolved(&resolved, &imports[m]) {
                        match self.find(&imports[m]) {
                            Some(i) => {
                                let ghost pre2 = resolved_view(resolved@);
                                resolved.push((imports[m].clone(), i));
                                proof {
                                    assert(resolved_view(resolved@) =~= pre2.push(
                                        ResolvedItemV {
                                            name: imports@[m as int]@,
                                            idx: i as int,
                                        },
                                    ));
                                    assert(resolved_view(resolved@).take(
                                        pre_resolved.len() as int,
                                    ) =~= pre_resolved);
                                }
                            },
                            None => {},
                        }
                    }
                }
                m = m + 1;
            }
            proof {
                assert(imports_v.skip(imports@.len() as int) =~= Seq::<Seq<char>>::empty());
            }

            let record = HashedFileRecord::from_file(
                current_name,
                self.entries[idx].local_path.clone(),
                &self.entries[idx].bytes,
                imports,
            );
            out.push(record);
            proof {
                deps_g = deps_g.push(imports_v);
            }
            k = k + 1;
        }

        proof {
            assert(walk0 == (WalkOutcome::Processed {
                resolved: resolved_view(resolved@),
                deps: deps_g,
            }));
            assert(records_view(out@) =~= spec_records(store_v, resolved_view(resolved@), deps_g));
        }
        Ok(out)
    }
}

} // verus!
