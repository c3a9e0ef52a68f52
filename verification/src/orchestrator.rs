//! Build orchestrator: one logical build slot per target.
//!
//! Bursty change triggers are bounded by two flags and a counter rather than
//! a queue: `build_active` marks a compiler run in flight, `build_pending`
//! remembers that more triggers arrived meanwhile, and `next_id` allocates
//! build identifiers when a build actually starts. However many triggers
//! arrive while a build runs, at most one catch-up build follows it.
//!
//! The orchestrator itself is a pure state machine: every step maps a state
//! and an incoming trigger to the successor state and the actions to perform
//! (launch the compiler, forward an asset notification). The surrounding
//! process runs the loop, performs the actions and feeds completion back in
//! as a trigger.

use vstd::prelude::*;

verus! {

/// An incoming trigger, after debouncing.
pub enum BuildTrigger {
    /// An explicit request to build.
    RequestBuild,
    /// A source file changed.
    CodeChanged,
    /// An asset file changed; assets are never compiled.
    AssetChanged { name: String, local_path: String },
    /// The compiler subprocess of the in-flight build finished.
    BuildCompleted { success: bool },
}

/// An action the orchestration loop must perform after a step.
#[derive(Debug, PartialEq, Eq)]
pub enum OrchestratorAction {
    /// Launch the compiler subprocess for the build with this identifier.
    StartBuild { id: u32 },
    /// Forward an asset change to the subscribers.
    ForwardAsset { name: String, local_path: String },
}

/// The build slot of one target.
pub struct OrchestratorState {
    /// A compiler subprocess is in flight.
    pub build_active: bool,
    /// At least one further trigger arrived while a build was in flight.
    pub build_pending: bool,
    /// The identifier the next starting build will take.
    pub next_id: u32,
    /// A build has been requested at least once; source changes before the
    /// first request are ignored.
    pub should_build: bool,
}

impl OrchestratorState {
    /// The initial slot: idle, first build will take identifier 1.
    pub fn new() -> (r: OrchestratorState)
        ensures
            r == initial_state(),
    {
        OrchestratorState { build_active: false, build_pending: false, next_id: 1, should_build: false }
    }
}

pub open spec fn initial_state() -> OrchestratorState {
    OrchestratorState { build_active: false, build_pending: false, next_id: 1, should_build: false }
}

/// Whether a trigger asks for a (re)build in the given state.
pub open spec fn spec_is_build_trigger(s: OrchestratorState, e: BuildTrigger) -> bool {
    match e {
        BuildTrigger::RequestBuild => true,
        BuildTrigger::CodeChanged => s.should_build,
        _ => false,
    }
}

/// One orchestrator step: the successor state and the emitted actions.
///
/// On a build-triggering event: if no build is active, one starts under the
/// next identifier; otherwise only the pending flag is set. On completion:
/// if a trigger arrived meanwhile, one catch-up build starts under a fresh
/// identifier; otherwise the slot falls idle. Asset changes are forwarded
/// unchanged and never start a build.
pub open spec fn spec_step(s: OrchestratorState, e: BuildTrigger) -> (
    OrchestratorState,
    Seq<OrchestratorAction>,
) {
    match e {
        BuildTrigger::RequestBuild | BuildTrigger::CodeChanged => {
            let requested = OrchestratorState {
                should_build: s.should_build || (e is RequestBuild),
                ..s
            };
            if spec_is_build_trigger(s, e) {
                if s.build_active {
                    (OrchestratorState { build_pending: true, ..requested }, seq![])
                } else {
                    (
                        OrchestratorState {
                            build_active: true,
                            next_id: (s.next_id + 1) as u32,
                            ..requested
                        },
                        seq![OrchestratorAction::StartBuild { id: s.next_id }],
                    )
                }
            } else {
                (requested, seq![])
            }
        },
        BuildTrigger::AssetChanged { name, local_path } => (
            s,
            seq![OrchestratorAction::ForwardAsset { name, local_path }],
        ),
        BuildTrigger::BuildCompleted { success: _ } => {
            if s.build_pending {
                (
                    OrchestratorState {
                        build_pending: false,
                        next_id: (s.next_id + 1) as u32,
                        ..s
                    },
                    seq![OrchestratorAction::StartBuild { id: s.next_id }],
                )
            } else {
                (OrchestratorState { build_active: false, ..s }, seq![])
            }
        },
    }
}

/// The orchestrator folded over a whole sequence of triggers: the final
/// state and every action emitted along the way, in order.
pub open spec fn spec_run(s: OrchestratorState, events: Seq<BuildTrigger>) -> (
    OrchestratorState,
    Seq<OrchestratorAction>,
)
    decreases events.len(),
{
    if events.len() == 0 {
        (s, Seq::empty())
    } else {
        let (s1, first) = spec_step(s, events[0]);
        let (s2, rest) = spec_run(s1, events.skip(1));
        (s2, first + rest)
    }
}

/// One step allocates at most one identifier, and never moves the counter
/// back.
pub proof fn lemma_step_next_id_bounds(s: OrchestratorState, e: BuildTrigger)
    requires
        s.next_id < u32::MAX,
    ensures
        s.next_id <= spec_step(s, e).0.next_id <= s.next_id + 1,
        spec_step(s, e).1.len() <= 1,
{
}

impl OrchestratorState {
    /// Process one trigger, returning the actions for the loop to perform.
    pub fn step(&mut self, event: &BuildTrigger) -> (actions: Vec<OrchestratorAction>)
        requires
            old(self).next_id < u32::MAX,
        ensures
            (*final(self), actions@) == spec_step(*old(self), *event),
    {
        match event {
            BuildTrigger::RequestBuild => {
                self.should_build = true;
                self.trigger_build()
            },
            BuildTrigger::CodeChanged => {
                if self.should_build {
                    self.trigger_build()
                } else {
                    Vec::new()
                }
            },
            BuildTrigger::AssetChanged { name, local_path } => {
                let mut actions: Vec<OrchestratorAction> = Vec::new();
                actions.push(OrchestratorAction::ForwardAsset {
                    name: name.clone(),
                    local_path: local_path.clone(),
                });
                actions
            },
            BuildTrigger::BuildCompleted { success: _ } => {
                if self.build_pending {
                    self.build_pending = false;
                    let id = self.next_id;
                    self.next_id = self.next_id + 1;
                    let mut actions: Vec<OrchestratorAction> = Vec::new();
                    actions.push(OrchestratorAction::StartBuild { id });
                    actions
                } else {
                    self.build_active = false;
                    Vec::new()
                }
            },
        }
    }

    /// Process a whole sequence of triggers in order, returning every
    /// emitted action.
    pub fn process_events(&mut self, events: &Vec<BuildTrigger>) -> (actions: Vec<
        OrchestratorAction,
    >)
        requires
            old(self).next_id + events@.len() <= u32::MAX,
        ensures
            (*final(self), actions@) == spec_run(*old(self), events@),
    {
        let ghost full = spec_run(*old(self), events@);
        let mut actions: Vec<OrchestratorAction> = Vec::new();
        let mut i: usize = 0;
        proof {
            assert(events@.skip(0) =~= events@);
            assert(Seq::<OrchestratorAction>::empty() + full.1 =~= full.1);
        }
        while i < events.len()
            invariant
                i <= events@.len(),
                self.next_id + (events@.len() - i) <= u32::MAX,
                spec_run(*self, events@.skip(i as int)).0 == full.0,
                actions@ + spec_run(*self, events@.skip(i as int)).1 == full.1,
                full == spec_run(*old(self), events@),
            decreases events@.len() - i,
        {
            let ghost pre_state = *self;
            let ghost pre_actions = actions@;
            proof {
                assert(events@.skip(i as int)[0] == events@[i as int]);
                assert(events@.skip(i as int).skip(1) =~= events@.skip(i as int + 1));
                lemma_step_next_id_bounds(*self, events@[i as int]);
            }
            let mut step_actions = self.step(&events[i]);
            actions.append(&mut step_actions);
            proof {
                let (s1, first) = spec_step(pre_state, events@[i as int]);
                let (s2, rest) = spec_run(s1, events@.skip(i as int + 1));
                assert(pre_actions + (first + rest) =~= (pre_actions + first) + rest);
            }
            i = i + 1;
        }
        actions
    }

    /// A build-triggering event arrived: start a build if the slot is free,
    /// else record it in the pending flag.
    fn trigger_build(&mut self) -> (actions: Vec<OrchestratorAction>)
        requires
            old(self).next_id < u32::MAX,
        ensures
            old(self).build_active ==> *final(self) == (OrchestratorState {
                build_pending: true,
                ..*old(self)
            }),
            old(self).build_active ==> actions@ == Seq::<OrchestratorAction>::empty(),
            !old(self).build_active ==> *final(self) == (OrchestratorState {
                build_active: true,
                next_id: (old(self).next_id + 1) as u32,
                ..*old(self)
            }),
            !old(self).build_active ==> actions@ == (seq![
                OrchestratorAction::StartBuild { id: old(self).next_id },
            ]),
    {
        if self.build_active {
            self.build_pending = true;
            Vec::new()
        } else {
            self.build_active = true;
            let id = self.next_id;
            self.next_id = self.next_id + 1;
            let mut actions: Vec<OrchestratorAction> = Vec::new();
            actions.push(OrchestratorAction::StartBuild { id });
            actions
        }
    }
}

/// The incremental-run descriptor handed to the compiler: the very first
/// build starts clean; every later build is a patch against the usable
/// artifacts of earlier builds.
#[derive(Debug, PartialEq, Eq)]
pub enum IncrementalRunParams {
    InitialRun,
    Patch { id: u32, timestamp_ms: u64, previous_versions: Vec<String> },
}

/// One entry of the append-only list of previously built artifacts.
pub struct PreviousVersion {
    pub name: String,
    pub path: String,
}

/// The names of the previous versions whose files still exist, in order;
/// `exists[i]` reports whether `entries[i]`'s file is still on disk at use
/// time.
pub open spec fn spec_usable_previous(entries: Seq<PreviousVersion>, exists: Seq<bool>) -> Seq<
    Seq<char>,
>
    decreases entries.len(),
{
    if entries.len() == 0 || exists.len() == 0 {
        Seq::empty()
    } else {
        let rest = spec_usable_previous(entries.skip(1), exists.skip(1));
        if exists[0] {
            seq![entries[0].name@] + rest
        } else {
            rest
        }
    }
}

/// The incremental-run descriptor of build `id`: the first build runs
/// clean; later builds patch against the previous versions whose files
/// still exist.
pub fn incremental_params(
    id: u32,
    timestamp_ms: u64,
    entries: &Vec<PreviousVersion>,
    exists: &Vec<bool>,
) -> (r: IncrementalRunParams)
    requires
        entries@.len() == exists@.len(),
    ensures
        id == 1 ==> r is InitialRun,
        id != 1 ==> (r matches IncrementalRunParams::Patch {
            id: rid,
            timestamp_ms: ts,
            previous_versions: pv,
        } && rid == id && ts == timestamp_ms && crate::imports::names_view(pv@)
            == spec_usable_previous(entries@, exists@)),
{
    if id == 1 {
        return IncrementalRunParams::InitialRun;
    }
    let mut previous_versions: Vec<String> = Vec::new();
    let mut i: usize = 0;
    proof {
        assert(entries@.skip(0) =~= entries@);
        assert(exists@.skip(0) =~= exists@);
        assert(crate::imports::names_view(previous_versions@) + spec_usable_previous(
            entries@,
            exists@,
        ) =~= spec_usable_previous(entries@, exists@));
    }
    while i < entries.len()
        invariant
            i <= entries@.len(),
            entries@.len() == exists@.len(),
            crate::imports::names_view(previous_versions@) + spec_usable_previous(
                entries@.skip(i as int),
                exists@.skip(i as int),
            ) == spec_usable_previous(entries@, exists@),
        decreases entries@.len() - i,
    {
        proof {
            assert(entries@.skip(i as int)[0] == entries@[i as int]);
            assert(exists@.skip(i as int)[0] == exists@[i as int]);
            assert(entries@.skip(i as int).skip(1) =~= entries@.skip(i as int + 1));
            assert(exists@.skip(i as int).skip(1) =~= exists@.skip(i as int + 1));
        }
        if exists[i] {
            let ghost pre = previous_versions@;
            previous_versions.push(entries[i].name.clone());
            proof {
                assert(crate::imports::names_view(previous_versions@) =~= crate::imports::names_view(
                    pre,
                ) + seq![entries@[i as int].name@]);
                assert(crate::imports::names_view(pre) + (seq![entries@[i as int].name@]
                    + spec_usable_previous(entries@.skip(i as int + 1), exists@.skip(i as int + 1)))
                    =~= (crate::imports::names_view(pre) + seq![entries@[i as int].name@])
                    + spec_usable_previous(entries@.skip(i as int + 1), exists@.skip(i as int + 1)));
            }
        }
        i = i + 1;
    }
    proof {
        assert(entries@.skip(entries@.len() as int) =~= Seq::<PreviousVersion>::empty());
        assert(spec_usable_previous(
            entries@.skip(entries@.len() as int),
            exists@.skip(entries@.len() as int),
        ) =~= Seq::<Seq<char>>::empty());
        assert(crate::imports::names_view(previous_versions@) + Seq::<Seq<char>>::empty()
            =~= crate::imports::names_view(previous_versions@));
    }
    IncrementalRunParams::Patch { id, timestamp_ms, previous_versions }
}

/// The identifiers of the builds an action sequence starts, in order.
pub open spec fn started_ids(actions: Seq<OrchestratorAction>) -> Seq<u32>
    decreases actions.len(),
{
    if actions.len() == 0 {
        Seq::empty()
    } else {
        let head = match actions[0] {
            OrchestratorAction::StartBuild { id } => seq![id],
            _ => Seq::<u32>::empty(),
        };
        head + started_ids(actions.skip(1))
    }
}

pub open spec fn strictly_increasing(ids: Seq<u32>) -> bool {
    forall|i: int, j: int| 0 <= i < j < ids.len() ==> ids[i] < ids[j]
}

proof fn lemma_started_ids_single(a: OrchestratorAction)
    ensures
        started_ids(seq![a]) == (match a {
            OrchestratorAction::StartBuild { id } => seq![id],
            _ => Seq::<u32>::empty(),
        }),
{
    assert(seq![a].skip(1) =~= Seq::<OrchestratorAction>::empty());
    assert(started_ids(Seq::<OrchestratorAction>::empty()) == Seq::<u32>::empty());
    match a {
        OrchestratorAction::StartBuild { id } => {
            assert(started_ids(seq![a]) =~= seq![id]);
        },
        _ => {
            assert(started_ids(seq![a]) =~= Seq::<u32>::empty());
        },
    }
}

proof fn lemma_started_ids_concat(a: Seq<OrchestratorAction>, b: Seq<OrchestratorAction>)
    ensures
        started_ids(a + b) == started_ids(a) + started_ids(b),
    decreases a.len(),
{
    if a.len() == 0 {
        assert(a + b =~= b);
        assert(started_ids(a) + started_ids(b) =~= started_ids(b));
    } else {
        assert((a + b).skip(1) =~= a.skip(1) + b);
        lemma_started_ids_concat(a.skip(1), b);
        let head = match a[0] {
            OrchestratorAction::StartBuild { id } => seq![id],
            _ => Seq::<u32>::empty(),
        };
        assert((a + b)[0] == a[0]);
        assert(head + (started_ids(a.skip(1)) + started_ids(b)) =~= (head + started_ids(
            a.skip(1),
        )) + started_ids(b));
    }
}

/// Identifier discipline of a run: the counter never moves back, grows by at
/// most one per trigger, and every started build takes an identifier between
/// the initial and the final counter, in strictly increasing order.
pub proof fn lemma_run_ids(s: OrchestratorState, events: Seq<BuildTrigger>)
    requires
        s.next_id + events.len() <= u32::MAX,
    ensures
        s.next_id <= spec_run(s, events).0.next_id <= s.next_id + events.len(),
        strictly_increasing(started_ids(spec_run(s, events).1)),
        forall|k: int|
            0 <= k < started_ids(spec_run(s, events).1).len() ==> s.next_id <= #[trigger] started_ids(
                spec_run(s, events).1,
            )[k] < spec_run(s, events).0.next_id,
    decreases events.len(),
{
    if events.len() > 0 {
        let (s1, first) = spec_step(s, events[0]);
        let rest = spec_run(s1, events.skip(1));
        lemma_step_next_id_bounds(s, events[0]);
        lemma_run_ids(s1, events.skip(1));
        lemma_started_ids_concat(first, rest.1);
        if first.len() > 0 {
            assert(first =~= seq![first[0]]);
            lemma_started_ids_single(first[0]);
            if first[0] is StartBuild {
                assert(first[0] == (OrchestratorAction::StartBuild { id: s.next_id }));
                assert(s1.next_id == s.next_id + 1);
            }
        } else {
            assert(first =~= Seq::<OrchestratorAction>::empty());
            assert(started_ids(first) == Seq::<u32>::empty());
        }
    }
}

/// Every single subscriber observes strictly increasing build identifiers
/// with no repeats, whatever sequence of triggers the orchestrator sees.
pub proof fn lemma_build_ids_strictly_increase(s: OrchestratorState, events: Seq<BuildTrigger>)
    requires
        s.next_id + events.len() <= u32::MAX,
    ensures
        strictly_increasing(started_ids(spec_run(s, events).1)),
{
    lemma_run_ids(s, events);
}

/// How many completed-build notifications a trigger sequence carries.
pub open spec fn count_completions(events: Seq<BuildTrigger>) -> nat
    decreases events.len(),
{
    if events.len() == 0 {
        0nat
    } else {
        (if events[0] is BuildCompleted {
            1nat
        } else {
            0nat
        }) + count_completions(events.skip(1))
    }
}

/// One when a build is in flight, zero when the slot is idle.
pub open spec fn in_flight(s: OrchestratorState) -> nat {
    if s.build_active {
        1nat
    } else {
        0nat
    }
}

/// At most one compiler subprocess runs per target at a time: over any run,
/// the builds started never outnumber the completions fed back in plus the
/// single slot — so a second build can only start after the first finishes.
pub proof fn lemma_at_most_one_build_in_flight(s: OrchestratorState, events: Seq<BuildTrigger>)
    ensures
        started_ids(spec_run(s, events).1).len() + in_flight(s) <= in_flight(spec_run(s, events).0)
            + count_completions(events),
    decreases events.len(),
{
    if events.len() == 0 {
    } else {
        let (s1, first) = spec_step(s, events[0]);
        let rest = spec_run(s1, events.skip(1));
        lemma_at_most_one_build_in_flight(s1, events.skip(1));
        lemma_started_ids_concat(first, rest.1);
        if first.len() > 0 {
            assert(first =~= seq![first[0]]);
            lemma_started_ids_single(first[0]);
        } else {
            assert(first =~= Seq::<OrchestratorAction>::empty());
            assert(started_ids(first) == Seq::<u32>::empty());
        }
    }
}

/// While a build is in flight, further build requests start nothing: they
/// are coalesced into the pending flag.
pub proof fn lemma_active_build_absorbs_triggers(s: OrchestratorState, events: Seq<BuildTrigger>)
    requires
        s.build_active,
        events.len() >= 1,
        forall|k: int| 0 <= k < events.len() ==> events[k] is RequestBuild,
    ensures
        spec_run(s, events).1 == Seq::<OrchestratorAction>::empty(),
        spec_run(s, events).0 == (OrchestratorState {
            build_pending: true,
            should_build: true,
            ..s
        }),
    decreases events.len(),
{
    let (s1, first) = spec_step(s, events[0]);
    assert(first =~= Seq::<OrchestratorAction>::empty());
    if events.len() == 1 {
        assert(events.skip(1) =~= Seq::<BuildTrigger>::empty());
        assert(first + spec_run(s1, events.skip(1)).1 =~= Seq::<OrchestratorAction>::empty());
    } else {
        lemma_active_build_absorbs_triggers(s1, events.skip(1));
        assert(first + spec_run(s1, events.skip(1)).1 =~= Seq::<OrchestratorAction>::empty());
    }
}

/// Debounced build requests arriving while no build is active coalesce into
/// exactly one started build; the rest only mark the pending flag.
pub proof fn lemma_idle_triggers_coalesce(s: OrchestratorState, events: Seq<BuildTrigger>)
    requires
        !s.build_active,
        !s.build_pending,
        s.next_id < u32::MAX,
        events.len() >= 1,
        forall|k: int| 0 <= k < events.len() ==> events[k] is RequestBuild,
    ensures
        spec_run(s, events).1 == (seq![OrchestratorAction::StartBuild { id: s.next_id }]),
        spec_run(s, events).0.build_active,
        spec_run(s, events).0.build_pending == (events.len() > 1),
        spec_run(s, events).0.next_id == s.next_id + 1,
{
    let (s1, first) = spec_step(s, events[0]);
    assert(first =~= seq![OrchestratorAction::StartBuild { id: s.next_id }]);
    if events.len() == 1 {
        assert(events.skip(1) =~= Seq::<BuildTrigger>::empty());
        assert(first + spec_run(s1, events.skip(1)).1 =~= first);
    } else {
        lemma_active_build_absorbs_triggers(s1, events.skip(1));
        assert(first + spec_run(s1, events.skip(1)).1 =~= first);
    }
}

/// However many triggers arrive while a build is in flight, its completion
/// starts exactly one catch-up build, never two.
pub proof fn lemma_catch_up_build_is_single(
    s: OrchestratorState,
    events: Seq<BuildTrigger>,
    success: bool,
)
    requires
        s.build_active,
        s.next_id < u32::MAX,
        events.len() >= 1,
        forall|k: int| 0 <= k < events.len() ==> events[k] is RequestBuild,
    ensures
        ({
            let (t, absorbed) = spec_run(s, events);
            let (u, completion) = spec_step(t, BuildTrigger::BuildCompleted { success });
            absorbed + completion == (seq![OrchestratorAction::StartBuild { id: s.next_id }])
                && !u.build_pending
        }),
{
    lemma_active_build_absorbs_triggers(s, events);
    let (t, absorbed) = spec_run(s, events);
    let (u, completion) = spec_step(t, BuildTrigger::BuildCompleted { success });
    assert(absorbed + completion =~= seq![OrchestratorAction::StartBuild { id: s.next_id }]);
}

/// An asset change never starts a build: it is forwarded unchanged as an
/// asset update and the build slot is untouched.
pub proof fn lemma_asset_change_never_starts_build(
    s: OrchestratorState,
    name: String,
    local_path: String,
)
    ensures
        spec_step(s, BuildTrigger::AssetChanged { name, local_path }).0 == s,
        spec_step(s, BuildTrigger::AssetChanged { name, local_path }).1 == (seq![
            OrchestratorAction::ForwardAsset { name, local_path },
        ]),
        started_ids(spec_step(s, BuildTrigger::AssetChanged { name, local_path }).1)
            == Seq::<u32>::empty(),
{
    let out = spec_step(s, BuildTrigger::AssetChanged { name, local_path }).1;
    assert(out =~= seq![out[0]]);
    lemma_started_ids_single(out[0]);
}

} // verus!
