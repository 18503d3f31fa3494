//! Broadcast-server checks: roster consistency, fan-out, upstream frames.

use obs_sync::codec::{decode_message, encode_message};
use obs_sync::protocol::{
    LocalStatePayload, Payload, SceneChangePayload, StateReportPayload, SyncMessage,
    SyncMessageType, SyncTargetType,
};
use obs_sync::server::{ClientFrame, ClientFrameAction, MasterServer};

fn scene_change(scene: &str) -> SyncMessage {
    SyncMessage {
        message_type: SyncMessageType::SceneChange,
        timestamp: 77,
        target_type: SyncTargetType::Program,
        payload: Payload::SceneChange(SceneChangePayload {
            scene_name: scene.to_string(),
        }),
    }
}

#[test]
fn roster_tracks_registration_and_removal() {
    let mut server = MasterServer::new(8080);
    assert_eq!(server.get_connected_clients_count(), 0);

    server.register_client("10.0.0.2:4001".to_string(), "10.0.0.2".to_string(), 100);
    server.register_client("10.0.0.3:4002".to_string(), "10.0.0.3".to_string(), 101);
    assert_eq!(server.get_connected_clients_count(), 2);

    let infos = server.get_connected_clients_info();
    assert_eq!(infos.len(), 2);
    assert!(infos.iter().any(|i| i.id == "10.0.0.2:4001"
        && i.ip_address == "10.0.0.2"
        && i.connected_at == 100
        && i.last_activity == 100));

    // a report fills the status map
    server.record_report("10.0.0.2:4001".to_string(), true, vec![], 150);
    assert_eq!(server.get_slave_statuses().len(), 1);

    // removal clears the channel, the info and the status together
    server.remove_client("10.0.0.2:4001");
    assert_eq!(server.get_connected_clients_count(), 1);
    let infos = server.get_connected_clients_info();
    assert_eq!(infos.len(), 1);
    assert_eq!(infos[0].id, "10.0.0.3:4002");
    assert!(server.get_slave_statuses().is_empty());
}

#[test]
fn reregistration_keeps_one_entry_per_client() {
    let mut server = MasterServer::new(8080);
    server.register_client("10.0.0.2:4001".to_string(), "10.0.0.2".to_string(), 100);
    server.register_client("10.0.0.2:4001".to_string(), "10.0.0.2".to_string(), 200);
    assert_eq!(server.get_connected_clients_count(), 1);
    let infos = server.get_connected_clients_info();
    assert_eq!(infos.len(), 1);
    assert_eq!(infos[0].connected_at, 200);
}

#[test]
fn broadcast_sends_the_same_frame_to_every_client() {
    let mut server = MasterServer::new(8080);
    server.register_client("a:1".to_string(), "a".to_string(), 1);
    server.register_client("b:2".to_string(), "b".to_string(), 2);

    let msg = scene_change("Camera 2");
    let frames = server.broadcast_frames(&msg);
    assert_eq!(frames.len(), 2);
    let expected = encode_message(&msg);
    assert_eq!(frames[0].0, "a:1");
    assert_eq!(frames[1].0, "b:2");
    assert_eq!(frames[0].1, expected);
    assert_eq!(frames[1].1, expected);
}

#[test]
fn ping_is_answered_and_close_tears_down() {
    let mut server = MasterServer::new(8080);
    server.register_client("a:1".to_string(), "a".to_string(), 1);

    let action = server.handle_client_frame("a:1", ClientFrame::Ping(vec![1, 2]), 5);
    assert!(matches!(action, ClientFrameAction::SendPong(d) if d == vec![1, 2]));

    let action = server.handle_client_frame("a:1", ClientFrame::Close, 6);
    assert!(matches!(action, ClientFrameAction::Disconnect));

    let action = server.handle_client_frame("a:1", ClientFrame::SocketError, 7);
    assert!(matches!(action, ClientFrameAction::Disconnect));
}

#[test]
fn frames_refresh_the_activity_stamp() {
    let mut server = MasterServer::new(8080);
    server.register_client("a:1".to_string(), "a".to_string(), 1);
    server.handle_client_frame("a:1", ClientFrame::Ping(vec![]), 99);
    let infos = server.get_connected_clients_info();
    assert_eq!(infos[0].last_activity, 99);
    assert_eq!(infos[0].connected_at, 1);
}

#[test]
fn state_sync_request_triggers_a_fresh_snapshot() {
    let mut server = MasterServer::new(8080);
    server.register_client("a:1".to_string(), "a".to_string(), 1);
    let request = SyncMessage {
        message_type: SyncMessageType::StateSyncRequest,
        timestamp: 10,
        target_type: SyncTargetType::Program,
        payload: Payload::Empty,
    };
    let action =
        server.handle_client_frame("a:1", ClientFrame::Text(encode_message(&request)), 11);
    assert!(matches!(action, ClientFrameAction::TriggerInitialState));
}

#[test]
fn state_report_is_recorded_per_client() {
    let mut server = MasterServer::new(8080);
    server.register_client("a:1".to_string(), "a".to_string(), 1);
    let report = SyncMessage {
        message_type: SyncMessageType::StateReport,
        timestamp: 10,
        target_type: SyncTargetType::Program,
        payload: Payload::StateReport(StateReportPayload {
            is_synced: false,
            desync_details: vec![],
            current_state: LocalStatePayload {
                current_scene: "Cam2".to_string(),
                sources: vec![],
            },
        }),
    };
    let action = server.handle_client_frame("a:1", ClientFrame::Text(encode_message(&report)), 12);
    assert!(matches!(action, ClientFrameAction::NoAction));
    let statuses = server.get_slave_statuses();
    assert_eq!(statuses.len(), 1);
    assert_eq!(statuses[0].client_id, "a:1");
    assert!(!statuses[0].is_synced);
    assert_eq!(statuses[0].last_report_time, 12);
}

#[test]
fn unparseable_text_is_skipped_without_teardown() {
    let mut server = MasterServer::new(8080);
    server.register_client("a:1".to_string(), "a".to_string(), 1);
    let action = server.handle_client_frame("a:1", ClientFrame::Text("garbage".to_string()), 13);
    assert!(matches!(action, ClientFrameAction::NoAction));
    assert_eq!(server.get_connected_clients_count(), 1);
}

#[test]
fn stop_empties_every_map() {
    let mut server = MasterServer::new(8080);
    server.register_client("a:1".to_string(), "a".to_string(), 1);
    server.record_report("a:1".to_string(), true, vec![], 2);
    server.stop();
    assert!(server.shutdown);
    assert_eq!(server.get_connected_clients_count(), 0);
    assert!(server.get_connected_clients_info().is_empty());
    assert!(server.get_slave_statuses().is_empty());
}

#[test]
fn report_roundtrip_through_the_wire() {
    let report = SyncMessage {
        message_type: SyncMessageType::StateReport,
        timestamp: 10,
        target_type: SyncTargetType::Program,
        payload: Payload::StateReport(StateReportPayload {
            is_synced: true,
            desync_details: vec![],
            current_state: LocalStatePayload {
                current_scene: "Cam1".to_string(),
                sources: vec![],
            },
        }),
    };
    let back = decode_message(&encode_message(&report)).expect("decode");
    assert_eq!(back, report);
}
