//! Master sync-engine checks: target filtering, planning, message builders.

use base64::Engine;
use obs_sync::master::{
    filter_update_message, image_update_message, state_sync_message, transform_update_message,
    EventPlan, MasterSync,
};
use obs_sync::obs::OBSEvent;
use obs_sync::protocol::{
    Payload, SceneData, StateSyncPayload, SyncMessageType, SyncTargetType, TransformData,
};

fn transform() -> TransformData {
    TransformData {
        position_x: Some(100),
        position_y: Some(200),
        rotation: Some(0),
        scale_x: Some(1000),
        scale_y: Some(1000),
        width: Some(1920000),
        height: Some(1080000),
    }
}

#[test]
fn program_scene_change_is_emitted_under_default_targets() {
    let master = MasterSync::new();
    let plan = master.plan_event(&OBSEvent::SceneChanged {
        scene_name: "Camera 2".to_string(),
    });
    match plan {
        EventPlan::Emit(msg) => {
            assert_eq!(msg.message_type, SyncMessageType::SceneChange);
            assert_eq!(msg.target_type, SyncTargetType::Program);
            match msg.payload {
                Payload::SceneChange(p) => assert_eq!(p.scene_name, "Camera 2"),
                other => panic!("wrong payload: {:?}", other),
            }
        }
        other => panic!("expected an emitted message, got {:?}", other),
    }
}

#[test]
fn preview_changes_are_dropped_until_the_target_is_active() {
    let mut master = MasterSync::new();
    let event = OBSEvent::CurrentPreviewSceneChanged {
        scene_name: "Next".to_string(),
    };
    assert!(matches!(master.plan_event(&event), EventPlan::Drop));

    master.set_active_targets(vec![SyncTargetType::Preview]);
    match master.plan_event(&event) {
        EventPlan::Emit(msg) => assert_eq!(msg.target_type, SyncTargetType::Preview),
        other => panic!("expected an emitted message, got {:?}", other),
    }
}

#[test]
fn input_settings_change_respects_target_filtering() {
    let mut master = MasterSync::new();
    let event = OBSEvent::InputSettingsChanged {
        input_name: "Logo".to_string(),
    };
    assert!(matches!(
        master.plan_event(&event),
        EventPlan::FetchImage { .. }
    ));

    master.set_active_targets(vec![SyncTargetType::Program]);
    assert!(matches!(master.plan_event(&event), EventPlan::Drop));

    // a program change still goes out, exactly one message
    match master.plan_event(&OBSEvent::SceneChanged {
        scene_name: "Main".to_string(),
    }) {
        EventPlan::Emit(msg) => assert_eq!(msg.message_type, SyncMessageType::SceneChange),
        other => panic!("expected an emitted message, got {:?}", other),
    }
}

#[test]
fn transform_and_filter_events_ask_for_fetches() {
    let master = MasterSync::new();
    match master.plan_event(&OBSEvent::SceneItemTransformChanged {
        scene_name: "Main".to_string(),
        scene_item_id: 4,
    }) {
        EventPlan::FetchTransform {
            scene_name,
            scene_item_id,
        } => {
            assert_eq!(scene_name, "Main");
            assert_eq!(scene_item_id, 4);
        }
        other => panic!("expected a transform fetch, got {:?}", other),
    }
    match master.plan_event(&OBSEvent::SceneItemFilterChanged {
        scene_name: "Main".to_string(),
        scene_item_id: 4,
        filter_name: "Color".to_string(),
    }) {
        EventPlan::FetchFilter { filter_name, .. } => assert_eq!(filter_name, "Color"),
        other => panic!("expected a filter fetch, got {:?}", other),
    }
}

#[test]
fn log_only_events_are_dropped() {
    let master = MasterSync::new();
    assert!(matches!(
        master.plan_event(&OBSEvent::SourceCreated {
            source_name: "X".to_string()
        }),
        EventPlan::Drop
    ));
    assert!(matches!(
        master.plan_event(&OBSEvent::SourceDestroyed {
            source_name: "X".to_string()
        }),
        EventPlan::Drop
    ));
}

#[test]
fn settings_without_a_file_produce_no_message() {
    let master = MasterSync::new();
    assert_eq!(master.plan_input_settings("{}"), None);
    assert_eq!(master.plan_input_settings("{\"volume\":3}"), None);
    assert_eq!(master.plan_input_settings("{\"file\":\"\"}"), None);
    assert_eq!(master.plan_input_settings("not json at all"), None);
    assert_eq!(
        master.plan_input_settings("{\"file\":\"/a/logo.png\"}"),
        Some("/a/logo.png".to_string())
    );
}

#[test]
fn image_update_carries_standard_base64() {
    let bytes: Vec<u8> = (0u16..300).map(|i| (i % 251) as u8).collect();
    let msg = image_update_message("Logo".to_string(), "/a/logo.png".to_string(), Some(bytes.clone()));
    assert_eq!(msg.message_type, SyncMessageType::ImageUpdate);
    match msg.payload {
        Payload::ImageUpdate(p) => {
            assert_eq!(p.source_name, "Logo");
            assert_eq!(p.file, "/a/logo.png");
            assert_eq!(p.scene_name, "");
            let expected = base64::engine::general_purpose::STANDARD.encode(&bytes);
            assert_eq!(p.image_data.as_deref(), Some(expected.as_str()));
        }
        other => panic!("wrong payload: {:?}", other),
    }
}

#[test]
fn builders_fill_the_envelope() {
    let t = transform_update_message("Main".to_string(), 9, transform());
    assert_eq!(t.message_type, SyncMessageType::TransformUpdate);
    assert_eq!(t.target_type, SyncTargetType::Source);

    let f = filter_update_message(
        "Main".to_string(),
        9,
        "Cam".to_string(),
        "Color".to_string(),
        "{}".to_string(),
    );
    assert_eq!(f.message_type, SyncMessageType::FilterUpdate);

    let s = state_sync_message(StateSyncPayload {
        current_program_scene: "S1".to_string(),
        current_preview_scene: None,
        scenes: vec![SceneData {
            name: "S1".to_string(),
            items: vec![],
        }],
    });
    assert_eq!(s.message_type, SyncMessageType::StateSync);
    assert_eq!(s.target_type, SyncTargetType::Program);
    assert!(s.timestamp > 0);
}
