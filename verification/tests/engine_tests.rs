//! Drives a real engine sync-test session and feeds its emitted batch
//! through the bridge, checking that the flattened queue mirrors the
//! engine's emission order exactly.

use ggrs::{Config, GgrsRequest, PlayerType, PredictRepeatLast, SessionBuilder};
use ggrs_bridge::bridge::CBridge;
use ggrs_bridge::requests::{CRequest, CRequestType, CSessionEvent};
use ggrs_bridge::INVALID_HANDLE;

struct TestConfig;

impl Config for TestConfig {
    type Input = u32;
    type InputPredictor = PredictRepeatLast;
    type State = u32;
    type Address = u32;
}

/// Resolves each engine request's capability immediately and keeps only the
/// plain event, as the bridge expects.
fn resolve(requests: Vec<GgrsRequest<TestConfig>>) -> Vec<CSessionEvent> {
    let mut events = Vec::new();
    for request in requests {
        match request {
            GgrsRequest::SaveGameState { cell, frame } => {
                cell.save(frame, None, None);
                events.push(CSessionEvent::SaveGameState { frame });
            }
            GgrsRequest::LoadGameState { cell, frame } => {
                let _ = cell.load();
                events.push(CSessionEvent::LoadGameState { frame });
            }
            GgrsRequest::AdvanceFrame { inputs } => {
                events.push(CSessionEvent::AdvanceFrame {
                    inputs: inputs.iter().map(|i| i.0).collect(),
                });
            }
        }
    }
    events
}

#[test]
fn engine_synctest_batch_flattens_in_emission_order() {
    let mut session = SessionBuilder::<TestConfig>::new()
        .add_player(PlayerType::Local, 0)
        .unwrap()
        .add_player(PlayerType::Local, 1)
        .unwrap()
        .start_synctest_session()
        .unwrap();

    session.add_local_input(0, 7).unwrap();
    session.add_local_input(1, 3).unwrap();
    let requests = session.advance_frame().unwrap();
    let events = resolve(requests);

    let mut bridge = CBridge::new();
    bridge.builder_new();
    bridge.builder_add_local_player(0);
    bridge.builder_add_local_player(1);
    let handle = bridge.builder_start_synctest_session();
    assert_ne!(handle, INVALID_HANDLE);
    bridge.session_advance_frame(handle, &events);

    // On its first frame the engine saves state, then advances: the queue
    // must hold the save record, both inputs in slot order, and the advance.
    let mut drained: Vec<CRequest> = Vec::new();
    loop {
        let r = bridge.session_next_request(handle);
        if r.request_type == CRequestType::Empty {
            break;
        }
        drained.push(r);
    }
    assert_eq!(drained.len(), 4);
    assert_eq!(drained[0].request_type, CRequestType::SaveGameState);
    assert_eq!(drained[0].frame, 0);
    assert_eq!(drained[1].request_type, CRequestType::SetInput);
    assert_eq!(drained[1].player_handle, 0);
    assert_eq!(drained[1].input, 7);
    assert_eq!(drained[2].request_type, CRequestType::SetInput);
    assert_eq!(drained[2].player_handle, 1);
    assert_eq!(drained[2].input, 3);
    assert_eq!(drained[3].request_type, CRequestType::AdvanceFrame);
}

#[test]
fn engine_rejects_what_the_bridge_rejects() {
    // The bridge refuses a sync test whose prediction window is not above
    // the engine's determinism-check depth; so does the engine itself.
    let engine_result = SessionBuilder::<TestConfig>::new()
        .with_max_prediction_window(2)
        .add_player(PlayerType::Local, 0)
        .unwrap()
        .add_player(PlayerType::Local, 1)
        .unwrap()
        .start_synctest_session();
    assert!(engine_result.is_err());

    let mut bridge = CBridge::new();
    bridge.builder_new();
    bridge.builder_with_max_prediction_window(2);
    bridge.builder_add_local_player(0);
    bridge.builder_add_local_player(1);
    assert_eq!(bridge.builder_start_synctest_session(), INVALID_HANDLE);
}
