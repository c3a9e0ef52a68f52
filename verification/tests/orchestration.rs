use hot_reload_core::debounce::Debouncer;
use hot_reload_core::orchestrator::{
    BuildTrigger, IncrementalRunParams, OrchestratorAction, OrchestratorState, PreviousVersion,
    incremental_params,
};
use hot_reload_core::runtime::HotSwapState;

fn started_ids(actions: &[OrchestratorAction]) -> Vec<u32> {
    let mut ids = Vec::new();
    for a in actions {
        if let OrchestratorAction::StartBuild { id } = a {
            ids.push(*id);
        }
    }
    ids
}

#[test]
fn first_build_takes_id_one() {
    let mut state = OrchestratorState::new();
    let actions = state.step(&BuildTrigger::RequestBuild);
    assert_eq!(actions, vec![OrchestratorAction::StartBuild { id: 1 }]);
    assert!(state.build_active);
    assert!(!state.build_pending);
}

#[test]
fn build_ids_strictly_increase() {
    let mut state = OrchestratorState::new();
    let events = vec![
        BuildTrigger::RequestBuild,
        BuildTrigger::BuildCompleted { success: true },
        BuildTrigger::CodeChanged,
        BuildTrigger::BuildCompleted { success: false },
        BuildTrigger::CodeChanged,
    ];
    let actions = state.process_events(&events);
    let ids = started_ids(&actions);
    assert_eq!(ids, vec![1, 2, 3]);
    for w in ids.windows(2) {
        assert!(w[0] < w[1]);
    }
}

#[test]
fn triggers_while_active_coalesce_into_one_catch_up_build() {
    let mut state = OrchestratorState::new();
    let actions = state.step(&BuildTrigger::RequestBuild);
    assert_eq!(started_ids(&actions), vec![1]);
    // many more triggers while the build is in flight: no second subprocess
    for _ in 0..5 {
        let actions = state.step(&BuildTrigger::RequestBuild);
        assert!(actions.is_empty());
        assert!(state.build_pending);
    }
    // completion starts exactly one catch-up build
    let actions = state.step(&BuildTrigger::BuildCompleted { success: true });
    assert_eq!(started_ids(&actions), vec![2]);
    assert!(!state.build_pending);
    // and its completion starts nothing further
    let actions = state.step(&BuildTrigger::BuildCompleted { success: true });
    assert!(actions.is_empty());
    assert!(!state.build_active);
}

#[test]
fn asset_change_never_starts_a_build() {
    let mut state = OrchestratorState::new();
    let actions = state.step(&BuildTrigger::AssetChanged {
        name: "sprite.png".to_string(),
        local_path: "assets/sprite.png".to_string(),
    });
    assert_eq!(started_ids(&actions), Vec::<u32>::new());
    assert_eq!(
        actions,
        vec![OrchestratorAction::ForwardAsset {
            name: "sprite.png".to_string(),
            local_path: "assets/sprite.png".to_string(),
        }]
    );
    assert!(!state.build_active);
    assert_eq!(state.next_id, 1);
}

#[test]
fn code_change_before_any_request_is_ignored() {
    let mut state = OrchestratorState::new();
    let actions = state.step(&BuildTrigger::CodeChanged);
    assert!(actions.is_empty());
    assert!(!state.build_active);
    let actions = state.step(&BuildTrigger::RequestBuild);
    assert_eq!(started_ids(&actions), vec![1]);
}

#[test]
fn debounce_burst_collapses_into_one_delivery() {
    let mut d = Debouncer::new(1000);
    d.note_event(0);
    d.note_event(100);
    d.note_event(200);
    // within the window of the last event: nothing fires
    assert!(!d.take_delivery(1100));
    // the window has passed: exactly one delivery
    assert!(d.take_delivery(1200));
    // and nothing more without a new event
    assert!(!d.take_delivery(5000));
    d.note_event(6000);
    assert!(d.take_delivery(7000));
}

#[test]
fn adoption_is_idempotent_per_version() {
    let mut state = HotSwapState::with_initial(1, 10);
    state.deliver_update(2, 20);
    assert!(state.update_ready());
    assert!(state.update());
    assert_eq!(state.current, Some(20));
    assert_eq!(state.previous, Some(10));
    assert_eq!(state.next, None);
    assert_eq!(state.last_update_version(), 2);
    // second adoption with no new pending version: false, current unchanged
    assert!(!state.update());
    assert_eq!(state.current, Some(20));
    assert_eq!(state.last_update_version(), 2);
}

#[test]
fn delivery_never_lowers_the_pending_version() {
    let mut state = HotSwapState::new();
    assert!(state.deliver_update(5, 50));
    assert!(!state.deliver_update(3, 30));
    assert_eq!(state.pending_version, 5);
    // the stale library still landed in the next slot, as delivered
    assert_eq!(state.next, Some(30));
    assert_eq!(state.applied_version, 0);
}

#[test]
fn adoption_without_delivery_does_nothing() {
    let mut state = HotSwapState::with_initial(4, 7);
    assert!(!state.update_ready());
    assert!(!state.update());
    assert_eq!(state.current, Some(7));
    assert_eq!(state.applied_version, 4);
}

#[test]
fn incremental_params_first_build_runs_clean() {
    let r = incremental_params(1, 999, &Vec::new(), &Vec::new());
    assert_eq!(r, IncrementalRunParams::InitialRun);
}

#[test]
fn incremental_params_patch_keeps_only_existing_files() {
    let entries = vec![
        PreviousVersion { name: "app.1".to_string(), path: "out/app.1".to_string() },
        PreviousVersion { name: "app.2".to_string(), path: "out/app.2".to_string() },
        PreviousVersion { name: "app.3".to_string(), path: "out/app.3".to_string() },
    ];
    let exists = vec![true, false, true];
    let r = incremental_params(4, 1234, &entries, &exists);
    assert_eq!(
        r,
        IncrementalRunParams::Patch {
            id: 4,
            timestamp_ms: 1234,
            previous_versions: vec!["app.1".to_string(), "app.3".to_string()],
        }
    );
}
