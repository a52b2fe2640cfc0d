use swb::relay::{
    log_forward_result, log_sm_client_result, BridgeInfo, ConnectionMonitor, RelayAction,
    RelayEvent, RelaySession, RelayState, TaskOutcome, WSError, MAX_INITIAL_CONNECT_ATTEMPTS,
    MAX_RECONNECT_ATTEMPTS, SOCKET_TIMEOUT_SECS,
};

fn bridge_info() -> BridgeInfo {
    BridgeInfo { bridge_id: "B1".to_string(), stream_ids: vec![7] }
}

#[test]
fn configuration_constants() {
    assert_eq!(SOCKET_TIMEOUT_SECS, 15);
    assert_eq!(MAX_INITIAL_CONNECT_ATTEMPTS, 3);
    assert_eq!(MAX_RECONNECT_ATTEMPTS, 3);
}

#[test]
fn no_binary_frames_before_bridge_info() {
    let mut s = RelaySession::new();
    assert!(!s.can_send());
    s.step(RelayEvent::ConnectSucceeded);
    // connected, but the bridge info has not arrived yet
    assert!(!s.can_send());
    let action = s.step(RelayEvent::TextMessage(Some(bridge_info())));
    match action {
        RelayAction::DeliverBridgeInfo(bi) => {
            assert_eq!(bi.bridge_id, "B1");
            assert_eq!(bi.stream_ids, vec![7]);
        }
        _ => panic!("expected the bridge info to be delivered"),
    }
    assert!(s.can_send());
}

#[test]
fn reconnect_does_not_redeliver_bridge_info() {
    let mut s = RelaySession::new();
    s.step(RelayEvent::ConnectSucceeded);
    let first = s.step(RelayEvent::TextMessage(Some(bridge_info())));
    assert!(matches!(first, RelayAction::DeliverBridgeInfo(_)));
    // transient disconnect: the client dials again and keeps streaming
    let action = s.step(RelayEvent::Disconnected);
    assert!(matches!(action, RelayAction::Dial));
    let action = s.step(RelayEvent::ConnectSucceeded);
    assert!(matches!(action, RelayAction::Ignore));
    assert!(s.can_send());
    // a second text frame is ignored, not delivered again
    let action = s.step(RelayEvent::TextMessage(Some(bridge_info())));
    assert!(matches!(action, RelayAction::Ignore));
}

#[test]
fn initial_connect_attempts_are_bounded() {
    let mut s = RelaySession::new();
    assert!(matches!(s.step(RelayEvent::ConnectFailed), RelayAction::Dial));
    assert!(matches!(s.step(RelayEvent::ConnectFailed), RelayAction::Dial));
    assert!(matches!(s.step(RelayEvent::ConnectFailed), RelayAction::ReportConnectError));
    assert_eq!(s.state_snapshot(), RelayState::Failed);
}

#[test]
fn reconnects_exhausted_closes_the_session() {
    let mut s = RelaySession::new();
    s.step(RelayEvent::ConnectSucceeded);
    s.step(RelayEvent::TextMessage(Some(bridge_info())));
    s.step(RelayEvent::Disconnected);
    assert!(matches!(s.step(RelayEvent::ConnectFailed), RelayAction::Dial));
    assert!(matches!(s.step(RelayEvent::ConnectFailed), RelayAction::Dial));
    assert!(matches!(s.step(RelayEvent::ConnectFailed), RelayAction::ReportClosed));
    assert_eq!(s.state_snapshot(), RelayState::Closed);
}

#[test]
fn local_close_sends_a_close_frame() {
    let mut s = RelaySession::new();
    s.step(RelayEvent::ConnectSucceeded);
    s.step(RelayEvent::TextMessage(Some(bridge_info())));
    let action = s.step(RelayEvent::LocalClose);
    assert!(matches!(action, RelayAction::SendCloseFrame));
    assert_eq!(s.state_snapshot(), RelayState::Closed);
    assert!(!s.can_send());
}

#[test]
fn monitor_result_is_consumed_once() {
    let mut m = ConnectionMonitor::new();
    assert_eq!(m.take_result(TaskOutcome::Finished), Ok(()));
    assert_eq!(m.take_result(TaskOutcome::Finished), Err(WSError::AlreadyConsumed));
}

#[test]
fn monitor_maps_task_outcomes() {
    let mut m = ConnectionMonitor::new();
    assert_eq!(
        m.take_result(TaskOutcome::FinishedWithError),
        Err(WSError::ConnectionClosed)
    );
    let mut p = ConnectionMonitor::new();
    assert_eq!(
        p.take_result(TaskOutcome::Panicked),
        Err(WSError::ConnectionTaskPanicked)
    );
}

#[test]
fn result_log_lines() {
    assert_eq!(log_forward_result(Ok(())), "Slippi stream finished successfully");
    assert_eq!(
        log_forward_result(Err(WSError::SendError)),
        "Slippi stream finished with error"
    );
    assert_eq!(
        log_sm_client_result(Ok(())),
        "SpectatorMode connection finished successfully"
    );
    assert_eq!(
        log_sm_client_result(Err(WSError::ConnectionClosed)),
        "SpectatorMode connection finished with error"
    );
}
