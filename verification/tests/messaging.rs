use hot_reload_core::harness::{
    recv_exit, recv_out, recv_std, ExitOutcome, InMessage, OutMessage, ScanOutcome,
};
use hot_reload_core::protocol::{
    frame, initial_library, socket_scheme, unframe, update_loop_directive, DylibRunnerMessage,
    InitialOutcome, LoopDirective, ProtocolMessage,
};
use hot_reload_core::reloadable::{element_selected, ReloadableRegistry};

#[test]
fn url_schemes_upgrade_to_their_socket_counterparts() {
    assert_eq!(socket_scheme("http"), Some("ws"));
    assert_eq!(socket_scheme("https"), Some("wss"));
    assert_eq!(socket_scheme("ws"), Some("ws"));
    assert_eq!(socket_scheme("wss"), Some("wss"));
    assert_eq!(socket_scheme("ftp"), None);
    assert_eq!(socket_scheme(""), None);
}

#[test]
fn frames_carry_a_length_prefix() {
    let payload = vec![9u8, 8, 7];
    assert_eq!(frame(&payload), vec![3u8, 0, 0, 0, 9, 8, 7]);
}

#[test]
fn framed_payloads_read_back_unchanged() {
    let payload = vec![1u8, 2, 3, 4, 5];
    let mut wire = frame(&payload);
    wire.extend_from_slice(&[0xAA, 0xBB]); // the next frame's first bytes
    let (read, used) = unframe(&wire).expect("a complete frame is present");
    assert_eq!(read, payload);
    assert_eq!(used, 4 + payload.len());
}

#[test]
fn incomplete_frames_wait_for_more_bytes() {
    assert!(unframe(&vec![3u8, 0]).is_none());
    // length prefix announces more than the buffer holds
    assert!(unframe(&vec![10u8, 0, 0, 0, 1, 2]).is_none());
    // the empty payload is a complete frame
    let (read, used) = unframe(&vec![0u8, 0, 0, 0]).expect("empty frame");
    assert!(read.is_empty());
    assert_eq!(used, 4);
}

#[test]
fn the_first_decisive_message_picks_the_initial_library() {
    let msgs = vec![
        DylibRunnerMessage::AssetUpdated {
            local_path: "a/x.png".to_string(),
            name: "x.png".to_string(),
        },
        DylibRunnerMessage::LoadRootLib {
            build_id: 7,
            local_path: "/tmp/lib.so".to_string(),
        },
        DylibRunnerMessage::ConnectionClosed,
    ];
    assert_eq!(
        initial_library(&msgs),
        InitialOutcome::Connected {
            build_id: 7,
            local_path: "/tmp/lib.so".to_string(),
        }
    );
    assert_eq!(
        initial_library(&vec![DylibRunnerMessage::ConnectionClosed]),
        InitialOutcome::Closed
    );
    assert_eq!(initial_library(&Vec::new()), InitialOutcome::StillWaiting);
    let assets_only = vec![DylibRunnerMessage::AssetUpdated {
        local_path: "a".to_string(),
        name: "a".to_string(),
    }];
    assert_eq!(initial_library(&assets_only), InitialOutcome::StillWaiting);
}

#[test]
fn update_loop_directives_mirror_the_messages() {
    assert_eq!(
        update_loop_directive(&DylibRunnerMessage::ConnectionClosed),
        LoopDirective::Stop
    );
    assert_eq!(
        update_loop_directive(&DylibRunnerMessage::LoadRootLib {
            build_id: 3,
            local_path: "/p".to_string(),
        }),
        LoopDirective::LoadThenDeliver {
            build_id: 3,
            local_path: "/p".to_string(),
        }
    );
    assert_eq!(
        update_loop_directive(&DylibRunnerMessage::AssetUpdated {
            local_path: "/a".to_string(),
            name: "n".to_string(),
        }),
        LoopDirective::AssetNotify {
            name: "n".to_string(),
            local_path: "/a".to_string(),
        }
    );
}

#[test]
fn protocol_messages_carry_their_payloads() {
    let started = ProtocolMessage::BuildStarted { id: 4 };
    match started {
        ProtocolMessage::BuildStarted { id } => assert_eq!(id, 4),
        _ => unreachable!(),
    }
    let keep_alive = ProtocolMessage::KeepAlive;
    assert!(matches!(keep_alive, ProtocolMessage::KeepAlive));
}

#[test]
fn registrations_are_wired_once() {
    let mut registry = ReloadableRegistry::new();
    assert!(registry.register_resource(&"Score".to_string()));
    assert!(!registry.register_resource(&"Score".to_string()));
    assert!(registry.register_resource(&"Health".to_string()));
    assert!(registry.register_component(&"Score".to_string()));
    assert!(!registry.register_component(&"Score".to_string()));
    assert!(registry.run_only_on_first_load(&"setup".to_string()));
    assert!(!registry.run_only_on_first_load(&"setup".to_string()));
    assert_eq!(registry.resources, vec!["Score".to_string(), "Health".to_string()]);
}

#[test]
fn element_selection_restricts_to_the_chosen_name() {
    assert!(element_selected(&None, &"any".to_string()));
    assert!(element_selected(&Some("ui".to_string()), &"ui".to_string()));
    assert!(!element_selected(&Some("ui".to_string()), &"world".to_string()));
}

#[test]
fn scanning_output_finds_the_expected_line() {
    let msgs = vec![
        OutMessage::StdErr("noise".to_string()),
        OutMessage::Std("other".to_string()),
        OutMessage::Std("Hey!".to_string()),
    ];
    assert_eq!(
        recv_std(&msgs, &"Hey!".to_string()),
        ScanOutcome::Found { index: 2 }
    );
    assert_eq!(recv_std(&msgs, &"absent".to_string()), ScanOutcome::Exhausted);
    assert_eq!(
        recv_out(&msgs, &"noise".to_string()),
        ScanOutcome::Found { index: 0 }
    );
}

#[test]
fn an_early_exit_ends_the_scan() {
    let msgs = vec![
        OutMessage::Std("a".to_string()),
        OutMessage::Exit(Some(1)),
        OutMessage::Std("Hey!".to_string()),
    ];
    assert_eq!(recv_std(&msgs, &"Hey!".to_string()), ScanOutcome::ExitedEarly);
    assert_eq!(recv_exit(&msgs, Some(1)), ExitOutcome::Matched);
    assert_eq!(
        recv_exit(&msgs, Some(0)),
        ExitOutcome::Mismatched { got: Some(1) }
    );
    assert_eq!(recv_exit(&msgs, None), ExitOutcome::Mismatched { got: Some(1) });
    assert_eq!(
        recv_exit(&vec![OutMessage::Std("x".to_string())], Some(0)),
        ExitOutcome::Exhausted
    );
    let stop = InMessage::Exit;
    assert!(matches!(stop, InMessage::Exit));
}
