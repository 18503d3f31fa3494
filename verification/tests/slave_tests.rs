//! Slave-engine checks: the applier's call plans, the projection, image
//! handling, the drift tick, and the model-level idempotence scenarios.

use base64::Engine;
use obs_sync::bcmodel::{apply_call, apply_calls, merge_transform, BcItemState, BcSceneState, BcState};
use obs_sync::codec::{decode_message, encode_message};
use obs_sync::diff::ExpectedState;
use obs_sync::images::detect_image_format;
use obs_sync::master::{image_update_message, state_sync_message, EventPlan, MasterSync};
use obs_sync::obs::OBSEvent;
use obs_sync::protocol::{
    FilterData, ImageData, ImageUpdatePayload, LocalSourceState, LocalStatePayload, Payload,
    SceneData, SceneItemData, StateSyncPayload, SyncMessage, SyncMessageType, SyncTargetType,
    TransformData,
};
use obs_sync::slave::{AlertSeverity, BcCall, SlaveSync};

fn no_transform() -> TransformData {
    TransformData {
        position_x: None,
        position_y: None,
        rotation: None,
        scale_x: None,
        scale_y: None,
        width: None,
        height: None,
    }
}

fn model_with(scenes: Vec<BcSceneState>, program: &str, studio: bool) -> BcState {
    BcState {
        program_scene: program.to_string(),
        preview_scene: None,
        studio_mode: studio,
        scenes,
    }
}

fn item(id: i64, source: &str) -> BcItemState {
    BcItemState {
        scene_item_id: id,
        source_name: source.to_string(),
        enabled: true,
        transform: no_transform(),
        image: None,
        filters: vec![FilterData {
            name: "Color".to_string(),
            enabled: false,
            settings: "{}".to_string(),
        }],
    }
}

#[test]
fn scene_change_propagates_end_to_end() {
    // master side: the operator switches the program scene
    let master = MasterSync::new();
    let plan = master.plan_event(&OBSEvent::SceneChanged {
        scene_name: "Camera 2".to_string(),
    });
    let msg = match plan {
        EventPlan::Emit(m) => m,
        other => panic!("expected an emitted message, got {:?}", other),
    };

    // the wire
    let delivered = decode_message(&encode_message(&msg)).expect("decode");

    // slave side: one program-scene call, projection moved first
    let mut slave = SlaveSync::new();
    let (calls, alerts) = slave.handle_message(&delivered, 1000);
    assert_eq!(
        calls,
        vec![BcCall::SetProgramScene {
            scene_name: "Camera 2".to_string()
        }]
    );
    assert!(alerts.is_empty());
    assert_eq!(slave.expected_state.current_scene, "Camera 2");

    // the next drift tick reports in-sync
    let local = LocalStatePayload {
        current_scene: "Camera 2".to_string(),
        sources: vec![],
    };
    let (report, tick_alerts) = slave.periodic_check(local, 2000);
    let report = report.expect("a report once the projection is filled");
    assert!(report.is_synced);
    assert!(report.desync_details.is_empty());
    assert!(tick_alerts.is_empty());
}

#[test]
fn image_resync_preserves_the_bytes() {
    let bytes: Vec<u8> = {
        let mut v = vec![0x89, 0x50, 0x4e, 0x47];
        v.extend((0u16..4996).map(|i| (i % 251) as u8));
        v
    };
    assert_eq!(bytes.len(), 5000);
    let msg = image_update_message("Logo".to_string(), "/a/logo.png".to_string(), Some(bytes.clone()));
    let delivered = decode_message(&encode_message(&msg)).expect("decode");

    let mut slave = SlaveSync::new();
    let (calls, alerts) = slave.handle_message(&delivered, 777);
    assert!(alerts.is_empty());
    assert_eq!(calls.len(), 1);
    match &calls[0] {
        BcCall::WriteImage {
            source_name,
            file_name,
            bytes: written,
        } => {
            assert_eq!(source_name, "Logo");
            assert_eq!(file_name, "logo_777.png");
            assert_eq!(written, &bytes);
        }
        other => panic!("expected an image write, got {:?}", other),
    }
}

#[test]
fn image_update_without_data_is_a_noop() {
    let msg = SyncMessage {
        message_type: SyncMessageType::ImageUpdate,
        timestamp: 5,
        target_type: SyncTargetType::Source,
        payload: Payload::ImageUpdate(ImageUpdatePayload {
            scene_name: String::new(),
            source_name: "Logo".to_string(),
            file: "/a/logo.png".to_string(),
            image_data: None,
        }),
    };
    let mut slave = SlaveSync::new();
    let before = slave.expected_state.clone();
    let (calls, alerts) = slave.handle_message(&msg, 5);
    assert!(calls.is_empty());
    assert!(alerts.is_empty());
    assert_eq!(slave.expected_state, before);
}

#[test]
fn invalid_base64_raises_one_warning() {
    let msg = SyncMessage {
        message_type: SyncMessageType::ImageUpdate,
        timestamp: 5,
        target_type: SyncTargetType::Source,
        payload: Payload::ImageUpdate(ImageUpdatePayload {
            scene_name: String::new(),
            source_name: "Logo".to_string(),
            file: String::new(),
            image_data: Some("!!!not base64!!!".to_string()),
        }),
    };
    let mut slave = SlaveSync::new();
    let (calls, alerts) = slave.handle_message(&msg, 5);
    assert!(calls.is_empty());
    assert_eq!(alerts.len(), 1);
    assert_eq!(alerts[0].severity, AlertSeverity::Warning);
    assert_eq!(alerts[0].source_name, "Logo");
    assert_eq!(alerts[0].id.len(), 36);
}

#[test]
fn transform_update_preserves_missing_scalars() {
    let current = TransformData {
        position_x: Some(10),
        position_y: Some(20),
        rotation: Some(30),
        scale_x: Some(1000),
        scale_y: Some(1000),
        width: Some(1920000),
        height: Some(1080000),
    };
    let update = TransformData {
        position_x: Some(999),
        position_y: None,
        rotation: None,
        scale_x: Some(500),
        scale_y: None,
        width: None,
        height: None,
    };
    let merged = merge_transform(&current, &update);
    assert_eq!(merged.position_x, Some(999));
    assert_eq!(merged.position_y, Some(20));
    assert_eq!(merged.rotation, Some(30));
    assert_eq!(merged.scale_x, Some(500));
    assert_eq!(merged.scale_y, Some(1000));
    // width and height always stay local
    assert_eq!(merged.width, Some(1920000));
    assert_eq!(merged.height, Some(1080000));
}

fn snapshot_s1_s2() -> StateSyncPayload {
    let logo_bytes = vec![0x89, 0x50, 0x4e, 0x47, 1, 2, 3];
    StateSyncPayload {
        current_program_scene: "S1".to_string(),
        current_preview_scene: None,
        scenes: vec![
            SceneData {
                name: "S1".to_string(),
                items: vec![SceneItemData {
                    source_name: "Logo".to_string(),
                    scene_item_id: 1,
                    source_type: "image_source".to_string(),
                    transform: Some(TransformData {
                        position_x: Some(100),
                        position_y: Some(200),
                        rotation: Some(0),
                        scale_x: Some(1000),
                        scale_y: Some(1000),
                        width: None,
                        height: None,
                    }),
                    image_data: Some(ImageData {
                        file: "/a/logo.png".to_string(),
                        data: base64::engine::general_purpose::STANDARD.encode(&logo_bytes),
                    }),
                    filters: vec![FilterData {
                        name: "Color".to_string(),
                        enabled: true,
                        settings: "{\"gamma\":1}".to_string(),
                    }],
                }],
            },
            SceneData {
                name: "S2".to_string(),
                items: vec![],
            },
        ],
    }
}

#[test]
fn resync_on_join_applies_the_snapshot() {
    let msg = state_sync_message(snapshot_s1_s2());
    let delivered = decode_message(&encode_message(&msg)).expect("decode");

    let mut slave = SlaveSync::new();
    let (calls, alerts) = slave.handle_message(&delivered, 50);
    assert!(alerts.is_empty());
    assert_eq!(slave.expected_state.current_scene, "S1");

    // walk: transform, image, filter settings, filter enabled; then program
    assert_eq!(calls.len(), 5);
    assert!(matches!(calls[0], BcCall::ApplyTransform { .. }));
    assert!(matches!(calls[1], BcCall::WriteImage { .. }));
    assert!(matches!(calls[2], BcCall::SetFilterSettings { .. }));
    assert!(matches!(calls[3], BcCall::SetFilterEnabled { .. }));
    assert_eq!(
        calls[4],
        BcCall::SetProgramScene {
            scene_name: "S1".to_string()
        }
    );

    // on a matching local machine every call is accepted
    let local = model_with(
        vec![
            BcSceneState {
                name: "S1".to_string(),
                items: vec![item(1, "Logo")],
            },
            BcSceneState {
                name: "S2".to_string(),
                items: vec![],
            },
        ],
        "S2",
        false,
    );
    let (after, failed) = apply_calls(&local, &calls);
    assert_eq!(failed, 0);
    assert_eq!(after.program_scene, "S1");
    assert_eq!(after.scenes[0].items[0].image.as_deref(), Some(&[0x89u8, 0x50, 0x4e, 0x47, 1, 2, 3][..]));

    // the first drift tick after the apply reports in-sync
    let (report, _) = slave.periodic_check(
        LocalStatePayload {
            current_scene: "S1".to_string(),
            sources: vec![],
        },
        60,
    );
    assert!(report.expect("report").is_synced);
}

#[test]
fn applying_a_snapshot_twice_equals_once() {
    let msg = state_sync_message(snapshot_s1_s2());
    let mut slave = SlaveSync::new();
    let (calls, _) = slave.handle_message(&msg, 50);

    let local = model_with(
        vec![
            BcSceneState {
                name: "S1".to_string(),
                items: vec![item(1, "Logo")],
            },
            BcSceneState {
                name: "S2".to_string(),
                items: vec![],
            },
        ],
        "S2",
        false,
    );
    let (once, _) = apply_calls(&local, &calls);
    let (twice, _) = apply_calls(&once, &calls);
    assert_eq!(twice, once);
}

#[test]
fn scene_change_is_idempotent_when_already_current() {
    let local = model_with(vec![], "X", false);
    let call = BcCall::SetProgramScene {
        scene_name: "X".to_string(),
    };
    let (after, ok) = apply_call(&local, &call);
    assert!(ok);
    assert_eq!(after, local);
}

#[test]
fn preview_scene_without_studio_mode_fails_once() {
    let mut snapshot = snapshot_s1_s2();
    snapshot.current_preview_scene = Some("S2".to_string());
    let msg = state_sync_message(snapshot);
    let mut slave = SlaveSync::new();
    let (calls, _) = slave.handle_message(&msg, 50);

    // the preview attempt is the last call and the only one of its kind
    assert!(matches!(calls.last(), Some(BcCall::SetPreviewScene { .. })));
    let preview_calls = calls
        .iter()
        .filter(|c| matches!(c, BcCall::SetPreviewScene { .. }))
        .count();
    assert_eq!(preview_calls, 1);

    let local = model_with(
        vec![
            BcSceneState {
                name: "S1".to_string(),
                items: vec![item(1, "Logo")],
            },
            BcSceneState {
                name: "S2".to_string(),
                items: vec![],
            },
        ],
        "S2",
        false,
    );
    let (after, failed) = apply_calls(&local, &calls);
    // exactly the preview call is refused, so exactly one warning is owed
    assert_eq!(failed, 1);
    assert_eq!(after.preview_scene, None);
}

#[test]
fn heartbeat_and_report_are_ignored_by_the_applier() {
    let mut slave = SlaveSync::new();
    for t in [SyncMessageType::Heartbeat, SyncMessageType::StateSyncRequest] {
        let msg = SyncMessage {
            message_type: t,
            timestamp: 9,
            target_type: SyncTargetType::Program,
            payload: Payload::Empty,
        };
        let (calls, alerts) = slave.handle_message(&msg, 9);
        assert!(calls.is_empty());
        assert!(alerts.is_empty());
    }
}

#[test]
fn drift_detection_reports_and_alerts() {
    let mut slave = SlaveSync::new();
    let sync = SyncMessage {
        message_type: SyncMessageType::SceneChange,
        timestamp: 3,
        target_type: SyncTargetType::Program,
        payload: Payload::SceneChange(obs_sync::protocol::SceneChangePayload {
            scene_name: "Cam1".to_string(),
        }),
    };
    slave.handle_message(&sync, 3);

    // the operator switched the slave to Cam2 by hand
    let (report, alerts) = slave.periodic_check(
        LocalStatePayload {
            current_scene: "Cam2".to_string(),
            sources: vec![LocalSourceState {
                name: "Mic".to_string(),
                transform: None,
            }],
        },
        400,
    );
    let report = report.expect("report");
    assert!(!report.is_synced);
    assert_eq!(report.desync_details.len(), 1);
    assert_eq!(report.current_state.current_scene, "Cam2");

    assert_eq!(alerts.len(), 1);
    assert_eq!(alerts[0].severity, AlertSeverity::Error);
    assert_eq!(
        alerts[0].message,
        "Current scene mismatch: local='Cam2', expected='Cam1'"
    );
    assert_eq!(alerts[0].timestamp, 400);
}

#[test]
fn empty_projection_skips_the_tick() {
    let slave = SlaveSync::new();
    let (report, alerts) = slave.periodic_check(
        LocalStatePayload {
            current_scene: "Whatever".to_string(),
            sources: vec![],
        },
        1,
    );
    assert!(report.is_none());
    assert!(alerts.is_empty());
}

#[test]
fn magic_bytes_name_the_format() {
    assert_eq!(detect_image_format(&vec![0x89, 0x50, 0x4e, 0x47, 0]), "png");
    assert_eq!(detect_image_format(&vec![0xff, 0xd8, 0xff, 0xe0]), "jpg");
    assert_eq!(detect_image_format(&vec![0x47, 0x49, 0x46, 0x38]), "gif");
    assert_eq!(detect_image_format(&vec![0x42, 0x4d, 0, 0]), "bmp");
    assert_eq!(
        detect_image_format(&vec![0x52, 0x49, 0x46, 0x46, 0x57, 0x45, 0x42, 0x50]),
        "webp"
    );
    assert_eq!(detect_image_format(&vec![0x52, 0x49, 0x46, 0x46, 0, 0, 0, 0]), "png");
    assert_eq!(detect_image_format(&vec![1, 2]), "png");
    assert_eq!(detect_image_format(&vec![9, 9, 9, 9]), "png");
}

#[test]
fn cache_names_fall_back_to_magic_bytes_and_source_name() {
    // no extension on the original file: the magic bytes decide
    let jpeg = vec![0xff, 0xd8, 0xff, 0xe0];
    let msg = image_update_message(
        "Cam/Feed".to_string(),
        "/tmp/upload".to_string(),
        Some(jpeg.clone()),
    );
    let mut slave = SlaveSync::new();
    let (calls, _) = slave.handle_message(&msg, 12);
    match &calls[0] {
        BcCall::WriteImage { file_name, .. } => assert_eq!(file_name, "upload_12.jpg"),
        other => panic!("expected an image write, got {:?}", other),
    }

    // no original file at all: the (sanitized) source name is the stem
    let msg = image_update_message("Cam/Feed".to_string(), String::new(), Some(jpeg));
    let (calls, _) = slave.handle_message(&msg, 13);
    match &calls[0] {
        BcCall::WriteImage { file_name, .. } => assert_eq!(file_name, "Cam_Feed_13.jpg"),
        other => panic!("expected an image write, got {:?}", other),
    }
}
