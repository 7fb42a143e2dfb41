use ggrs_bridge::bridge::{CBridge, CSessionState, CSessionType};
use ggrs_bridge::requests::{CRequest, CRequestType, CSessionEvent};
use ggrs_bridge::INVALID_HANDLE;

fn set_input(player: usize, input: u32) -> CRequest {
    CRequest { request_type: CRequestType::SetInput, frame: 0, player_handle: player, input }
}

fn advance() -> CRequest {
    CRequest { request_type: CRequestType::AdvanceFrame, frame: 0, player_handle: 0, input: 0 }
}

fn save(frame: i32) -> CRequest {
    CRequest { request_type: CRequestType::SaveGameState, frame, player_handle: 0, input: 0 }
}

fn load(frame: i32) -> CRequest {
    CRequest { request_type: CRequestType::LoadGameState, frame, player_handle: 0, input: 0 }
}

fn sentinel() -> CRequest {
    CRequest { request_type: CRequestType::Empty, frame: 0, player_handle: 0, input: 0 }
}

/// Builds a two-player sync-test session with default settings.
fn default_synctest(bridge: &mut CBridge) -> u32 {
    bridge.builder_new();
    bridge.builder_add_local_player(0);
    bridge.builder_add_local_player(1);
    bridge.builder_start_synctest_session()
}

#[test]
fn allocate_returns_nonzero_distinct_handles() {
    let mut bridge = CBridge::new();
    let mut seen = Vec::new();
    for _ in 0..100 {
        let h = bridge.allocate();
        assert_ne!(h, INVALID_HANDLE);
        assert!(!seen.contains(&h));
        seen.push(h);
    }
}

#[test]
fn build_handles_are_nonzero_and_distinct() {
    let mut bridge = CBridge::new();
    let a = default_synctest(&mut bridge);
    let b = default_synctest(&mut bridge);
    let c = default_synctest(&mut bridge);
    assert_ne!(a, INVALID_HANDLE);
    assert_ne!(b, INVALID_HANDLE);
    assert_ne!(c, INVALID_HANDLE);
    assert_ne!(a, b);
    assert_ne!(b, c);
    assert_ne!(a, c);
}

#[test]
fn synctest_scenario_two_players() {
    let mut bridge = CBridge::new();
    let handle = default_synctest(&mut bridge);
    assert_ne!(handle, INVALID_HANDLE);

    // The engine resolved input 7 for player 0 and 3 for player 1.
    let events = vec![CSessionEvent::AdvanceFrame { inputs: vec![7, 3] }];
    bridge.session_advance_frame(handle, &events);

    assert_eq!(bridge.session_next_request(handle), set_input(0, 7));
    assert_eq!(bridge.session_next_request(handle), set_input(1, 3));
    assert_eq!(bridge.session_next_request(handle), advance());
    assert_eq!(bridge.session_next_request(handle), sentinel());
}

#[test]
fn save_and_load_records_keep_emission_order() {
    let mut bridge = CBridge::new();
    let handle = default_synctest(&mut bridge);
    let events = vec![
        CSessionEvent::SaveGameState { frame: 4 },
        CSessionEvent::LoadGameState { frame: 2 },
        CSessionEvent::AdvanceFrame { inputs: vec![9] },
        CSessionEvent::SaveGameState { frame: 5 },
    ];
    bridge.session_advance_frame(handle, &events);
    assert_eq!(bridge.session_next_request(handle), save(4));
    assert_eq!(bridge.session_next_request(handle), load(2));
    assert_eq!(bridge.session_next_request(handle), set_input(0, 9));
    assert_eq!(bridge.session_next_request(handle), advance());
    assert_eq!(bridge.session_next_request(handle), save(5));
    assert_eq!(bridge.session_next_request(handle), sentinel());
}

#[test]
fn drain_is_idempotent_until_next_advance() {
    let mut bridge = CBridge::new();
    let handle = default_synctest(&mut bridge);

    // Empty from the start: repeated polls keep yielding the sentinel.
    assert_eq!(bridge.session_next_request(handle), sentinel());
    assert_eq!(bridge.session_next_request(handle), sentinel());

    let events = vec![CSessionEvent::AdvanceFrame { inputs: vec![1, 2] }];
    bridge.session_advance_frame(handle, &events);
    assert_eq!(bridge.session_next_request(handle), set_input(0, 1));
    assert_eq!(bridge.session_next_request(handle), set_input(1, 2));
    assert_eq!(bridge.session_next_request(handle), advance());
    assert_eq!(bridge.session_next_request(handle), sentinel());
    assert_eq!(bridge.session_next_request(handle), sentinel());

    // A new advance makes records available again.
    bridge.session_advance_frame(handle, &events);
    assert_eq!(bridge.session_next_request(handle), set_input(0, 1));
}

#[test]
fn queues_accumulate_across_advances() {
    let mut bridge = CBridge::new();
    let handle = default_synctest(&mut bridge);
    bridge.session_advance_frame(handle, &vec![CSessionEvent::AdvanceFrame { inputs: vec![1] }]);
    bridge.session_advance_frame(handle, &vec![CSessionEvent::AdvanceFrame { inputs: vec![2] }]);
    assert_eq!(bridge.session_next_request(handle), set_input(0, 1));
    assert_eq!(bridge.session_next_request(handle), advance());
    assert_eq!(bridge.session_next_request(handle), set_input(0, 2));
    assert_eq!(bridge.session_next_request(handle), advance());
    assert_eq!(bridge.session_next_request(handle), sentinel());
}

#[test]
fn unknown_handle_calls_are_noops_with_defaults() {
    let mut bridge = CBridge::new();
    bridge.session_advance_frame(
        999,
        &vec![CSessionEvent::AdvanceFrame { inputs: vec![1] }],
    );
    assert_eq!(bridge.session_next_request(999), sentinel());
    assert_eq!(
        bridge.session_current_state(999, CSessionState::Synchronizing),
        CSessionState::Running
    );
    assert_eq!(bridge.session_frames_ahead(999, 17), 0);
    assert!(bridge.session_kind(999).is_none());
    assert!(bridge.transport_pull_outbound(999).is_none());
    assert!(bridge.transport_receive_all(999).is_empty());
}

#[test]
fn status_queries_fold_engine_answers() {
    let mut bridge = CBridge::new();
    let st = default_synctest(&mut bridge);
    assert_eq!(bridge.session_kind(st), Some(CSessionType::SyncTest));
    // A sync-test session always reads as running and zero frames ahead,
    // whatever the engine would have said for a networked one.
    assert_eq!(
        bridge.session_current_state(st, CSessionState::Synchronizing),
        CSessionState::Running
    );
    assert_eq!(bridge.session_frames_ahead(st, 8), 0);

    bridge.builder_new();
    bridge.builder_add_local_player(0);
    bridge.builder_add_remote_player(1, 42);
    let p2p = bridge.builder_start_p2p_session();
    assert_ne!(p2p, INVALID_HANDLE);
    assert_eq!(bridge.session_kind(p2p), Some(CSessionType::P2P));
    assert_eq!(
        bridge.session_current_state(p2p, CSessionState::Synchronizing),
        CSessionState::Synchronizing
    );
    assert_eq!(bridge.session_frames_ahead(p2p, 8), 8);
}

#[test]
fn build_rejects_invalid_settings() {
    let mut bridge = CBridge::new();

    // Prediction window not above the determinism-check depth.
    bridge.builder_new();
    bridge.builder_add_local_player(0);
    bridge.builder_add_local_player(1);
    bridge.builder_with_max_prediction_window(0);
    assert_eq!(bridge.builder_start_synctest_session(), INVALID_HANDLE);

    // Duplicate player slot.
    bridge.builder_new();
    bridge.builder_add_local_player(0);
    bridge.builder_add_local_player(0);
    assert_eq!(bridge.builder_start_synctest_session(), INVALID_HANDLE);

    // Player slot out of range.
    bridge.builder_new();
    bridge.builder_with_num_players(2);
    bridge.builder_add_local_player(0);
    bridge.builder_add_local_player(2);
    assert_eq!(bridge.builder_start_synctest_session(), INVALID_HANDLE);

    // Zero frame rate.
    bridge.builder_new();
    bridge.builder_add_local_player(0);
    bridge.builder_add_local_player(1);
    bridge.builder_with_fps(0);
    assert_eq!(bridge.builder_start_synctest_session(), INVALID_HANDLE);

    // Sparse saving is incompatible with a sync test.
    bridge.builder_new();
    bridge.builder_add_local_player(0);
    bridge.builder_add_local_player(1);
    bridge.builder_with_sparse_saving_mode(true);
    assert_eq!(bridge.builder_start_synctest_session(), INVALID_HANDLE);

    // A peer-to-peer build needs every slot filled.
    bridge.builder_new();
    bridge.builder_add_local_player(0);
    assert_eq!(bridge.builder_start_p2p_session(), INVALID_HANDLE);

    // A failed build leaves the staged settings alone; mending them works.
    bridge.builder_add_remote_player(1, 7);
    assert_ne!(bridge.builder_start_p2p_session(), INVALID_HANDLE);
}

#[test]
fn build_resets_settings_to_defaults() {
    let mut bridge = CBridge::new();
    bridge.builder_new();
    bridge.builder_with_fps(30);
    bridge.builder_with_input_delay(4);
    bridge.builder_add_local_player(0);
    bridge.builder_add_local_player(1);
    let h = bridge.builder_start_synctest_session();
    assert_ne!(h, INVALID_HANDLE);
    assert_eq!(bridge.settings.fps, 60);
    assert_eq!(bridge.settings.input_delay, 2);
    assert_eq!(bridge.settings.num_players, 2);
    assert_eq!(bridge.settings.max_prediction, 8);
    assert!(!bridge.settings.sparse_saving);
    assert_eq!(bridge.settings.host_port, 30000);
    assert!(bridge.settings.local_player_handles.is_empty());
    assert!(bridge.settings.remote_player_handles.is_empty());

    // The next build therefore fails until players are staged again.
    assert_eq!(bridge.builder_start_p2p_session(), INVALID_HANDLE);
}

#[test]
fn failed_build_consumes_no_handle() {
    let mut bridge = CBridge::new();
    bridge.builder_new();
    // No players staged: the peer-to-peer build fails and nothing changes.
    assert_eq!(bridge.builder_start_p2p_session(), INVALID_HANDLE);
    // Handles start at 1 and the failed build left the counter alone.
    assert_eq!(default_synctest(&mut bridge), 1);
}

#[test]
fn advance_on_one_session_leaves_others_alone() {
    let mut bridge = CBridge::new();
    let a = default_synctest(&mut bridge);
    let b = default_synctest(&mut bridge);
    bridge.session_advance_frame(a, &vec![CSessionEvent::AdvanceFrame { inputs: vec![5, 6] }]);
    assert_eq!(bridge.session_next_request(b), sentinel());
    assert_eq!(bridge.session_next_request(a), set_input(0, 5));
}
