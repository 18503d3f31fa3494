//! Round-trip and robustness checks for the wire codec.

use obs_sync::codec::{decode_message, encode_message};
use obs_sync::protocol::{
    FilterData, ImageData, ImageUpdatePayload, Payload, SceneChangePayload, SceneData,
    SceneItemData, SourceUpdateAction, SourceUpdatePayload, StateSyncPayload, SyncMessage,
    SyncMessageType, SyncTargetType, TransformData, TransformUpdatePayload,
};
use obs_sync::wire::ParseError;

fn full_transform() -> TransformData {
    TransformData {
        position_x: Some(1250),
        position_y: Some(-3500),
        rotation: Some(90000),
        scale_x: Some(1000),
        scale_y: Some(990),
        width: Some(1920000),
        height: Some(1080000),
    }
}

#[test]
fn round_trip_scene_change() {
    let msg = SyncMessage {
        message_type: SyncMessageType::SceneChange,
        timestamp: 1700000000123,
        target_type: SyncTargetType::Program,
        payload: Payload::SceneChange(SceneChangePayload {
            scene_name: "Camera 2".to_string(),
        }),
    };
    let wire = encode_message(&msg);
    let back = decode_message(&wire).expect("decode");
    assert_eq!(back, msg);
}

#[test]
fn round_trip_transform_update_with_extremes() {
    let msg = SyncMessage {
        message_type: SyncMessageType::TransformUpdate,
        timestamp: 1,
        target_type: SyncTargetType::Source,
        payload: Payload::TransformUpdate(TransformUpdatePayload {
            scene_name: "Scene=with;odd:chars 漢字".to_string(),
            scene_item_id: i64::MIN,
            transform: TransformData {
                position_x: Some(i64::MAX),
                position_y: Some(i64::MIN),
                rotation: None,
                scale_x: Some(0),
                scale_y: None,
                width: None,
                height: Some(-1),
            },
        }),
    };
    let wire = encode_message(&msg);
    let back = decode_message(&wire).expect("decode");
    assert_eq!(back, msg);
}

#[test]
fn round_trip_heartbeat_and_request() {
    for t in [SyncMessageType::Heartbeat, SyncMessageType::StateSyncRequest] {
        let msg = SyncMessage {
            message_type: t,
            timestamp: 42,
            target_type: SyncTargetType::Program,
            payload: Payload::Empty,
        };
        let back = decode_message(&encode_message(&msg)).expect("decode");
        assert_eq!(back, msg);
    }
}

#[test]
fn round_trip_source_update() {
    let msg = SyncMessage {
        message_type: SyncMessageType::SourceUpdate,
        timestamp: 99,
        target_type: SyncTargetType::Source,
        payload: Payload::SourceUpdate(SourceUpdatePayload {
            scene_name: "Main".to_string(),
            scene_item_id: 7,
            source_name: "Cam".to_string(),
            action: SourceUpdateAction::Created,
            source_type: Some("dshow_input".to_string()),
            scene_item_enabled: Some(true),
            transform: Some(full_transform()),
        }),
    };
    let back = decode_message(&encode_message(&msg)).expect("decode");
    assert_eq!(back, msg);
}

#[test]
fn round_trip_state_sync_snapshot() {
    let snapshot = StateSyncPayload {
        current_program_scene: "S1".to_string(),
        current_preview_scene: Some("S2".to_string()),
        scenes: vec![
            SceneData {
                name: "S1".to_string(),
                items: vec![SceneItemData {
                    source_name: "Logo".to_string(),
                    scene_item_id: 1,
                    source_type: "image_source".to_string(),
                    transform: Some(full_transform()),
                    image_data: Some(ImageData {
                        file: "/a/logo.png".to_string(),
                        data: "aGVsbG8=".to_string(),
                    }),
                    filters: vec![FilterData {
                        name: "Color".to_string(),
                        enabled: true,
                        settings: "{\"gamma\":1}".to_string(),
                    }],
                }],
            },
            SceneData {
                name: "S2".to_string(),
                items: vec![],
            },
        ],
    };
    let msg = SyncMessage {
        message_type: SyncMessageType::StateSync,
        timestamp: 1234,
        target_type: SyncTargetType::Program,
        payload: Payload::StateSync(snapshot),
    };
    let back = decode_message(&encode_message(&msg)).expect("decode");
    assert_eq!(back, msg);
}

#[test]
fn round_trip_image_update_without_data() {
    let msg = SyncMessage {
        message_type: SyncMessageType::ImageUpdate,
        timestamp: 5,
        target_type: SyncTargetType::Source,
        payload: Payload::ImageUpdate(ImageUpdatePayload {
            scene_name: String::new(),
            source_name: "Logo".to_string(),
            file: "/a/logo.png".to_string(),
            image_data: None,
        }),
    };
    let back = decode_message(&encode_message(&msg)).expect("decode");
    assert_eq!(back, msg);
}

#[test]
fn unknown_message_type_is_skippable_error() {
    let msg = SyncMessage {
        message_type: SyncMessageType::Heartbeat,
        timestamp: 42,
        target_type: SyncTargetType::Program,
        payload: Payload::Empty,
    };
    let wire = encode_message(&msg).replace("heartbeat", "handshake");
    assert_eq!(decode_message(&wire), Err(ParseError::UnknownMessageType));
}

#[test]
fn unknown_fields_are_ignored() {
    let msg = SyncMessage {
        message_type: SyncMessageType::SceneChange,
        timestamp: 7,
        target_type: SyncTargetType::Program,
        payload: Payload::SceneChange(SceneChangePayload {
            scene_name: "Main".to_string(),
        }),
    };
    let wire = format!("legacy=3:abc;{}", encode_message(&msg));
    let back = decode_message(&wire).expect("decode with unknown field");
    assert_eq!(back, msg);
}

#[test]
fn malformed_text_is_rejected() {
    assert_eq!(decode_message("not a record"), Err(ParseError::Malformed));
    assert_eq!(decode_message(""), Err(ParseError::Malformed));
    assert_eq!(
        decode_message("message_type=9:heartbeat;"),
        Err(ParseError::Malformed)
    );
}

#[test]
fn constructors_fill_positive_timestamps() {
    let msg = SyncMessage::new(
        SyncMessageType::SceneChange,
        SyncTargetType::Program,
        Payload::SceneChange(SceneChangePayload {
            scene_name: "A".to_string(),
        }),
    );
    assert!(msg.timestamp > 0);
    let req = SyncMessage::state_sync_request();
    assert_eq!(req.message_type, SyncMessageType::StateSyncRequest);
    assert_eq!(req.target_type, SyncTargetType::Program);
    assert_eq!(req.payload, Payload::Empty);
    assert!(req.timestamp > 0);
}
