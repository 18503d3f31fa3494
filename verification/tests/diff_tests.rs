//! Drift-detector checks: tolerances, messages, severities.

use obs_sync::diff::{DiffDetector, ExpectedState};
use obs_sync::protocol::{
    DiffCategory, DiffSeverity, LocalSourceState, LocalStatePayload, TransformData,
};

fn transform(px: i64, py: i64, sx: i64, sy: i64) -> TransformData {
    TransformData {
        position_x: Some(px),
        position_y: Some(py),
        rotation: Some(0),
        scale_x: Some(sx),
        scale_y: Some(sy),
        width: None,
        height: None,
    }
}

fn state(scene: &str, sources: Vec<LocalSourceState>) -> LocalStatePayload {
    LocalStatePayload {
        current_scene: scene.to_string(),
        sources,
    }
}

#[test]
fn within_tolerance_is_silent() {
    // position may drift by half a unit (500 thousandths), scale by 10.
    let local = Some(transform(500, -500, 1010, 990));
    let expected = Some(transform(0, 0, 1000, 1000));
    assert!(DiffDetector::compare_transforms(&local, &expected, "S", "Cam").is_none());
}

#[test]
fn position_beyond_tolerance_is_flagged() {
    let local = Some(transform(501, 0, 1000, 1000));
    let expected = Some(transform(0, 0, 1000, 1000));
    let diffs = DiffDetector::compare_transforms(&local, &expected, "S", "Cam").expect("flagged");
    assert_eq!(diffs.len(), 1);
    assert_eq!(diffs[0].category, DiffCategory::TransformMismatch);
    assert_eq!(diffs[0].severity, DiffSeverity::Warning);
    assert_eq!(
        diffs[0].description,
        "Position mismatch: local=(501, 0), expected=(0, 0)"
    );
}

#[test]
fn scale_beyond_tolerance_is_flagged() {
    let local = Some(transform(0, 0, 1011, 1000));
    let expected = Some(transform(0, 0, 1000, 1000));
    let diffs = DiffDetector::compare_transforms(&local, &expected, "S", "Cam").expect("flagged");
    assert_eq!(diffs.len(), 1);
    assert_eq!(
        diffs[0].description,
        "Scale mismatch: local=(1011, 1000), expected=(1000, 1000)"
    );
}

#[test]
fn missing_transform_is_silent() {
    assert!(DiffDetector::compare_transforms(&None, &Some(transform(9999, 0, 0, 0)), "S", "C")
        .is_none());
    assert!(DiffDetector::compare_transforms(&Some(transform(9999, 0, 0, 0)), &None, "S", "C")
        .is_none());
}

#[test]
fn scene_mismatch_is_critical_with_exact_message() {
    let local = state("Cam2", vec![]);
    let expected = ExpectedState {
        current_scene: "Cam1".to_string(),
        sources: None,
    };
    let diffs = DiffDetector::detect_differences(&local, &expected);
    assert_eq!(diffs.len(), 1);
    assert_eq!(diffs[0].category, DiffCategory::SceneMismatch);
    assert_eq!(diffs[0].severity, DiffSeverity::Critical);
    assert_eq!(diffs[0].scene_name, "Cam1");
    assert_eq!(
        diffs[0].description,
        "Current scene mismatch: local='Cam2', expected='Cam1'"
    );
    assert!(!DiffDetector::is_synced(&diffs));
    assert!(DiffDetector::has_critical_diffs(&diffs));
}

#[test]
fn empty_expected_scene_never_mismatches() {
    let local = state("Anything", vec![]);
    let expected = ExpectedState::new();
    let diffs = DiffDetector::detect_differences(&local, &expected);
    assert!(diffs.is_empty());
    assert!(DiffDetector::is_synced(&diffs));
    assert!(!DiffDetector::has_critical_diffs(&diffs));
}

#[test]
fn missing_source_is_a_warning() {
    let local = state("S", vec![]);
    let expected = ExpectedState {
        current_scene: "S".to_string(),
        sources: Some(vec![LocalSourceState {
            name: "Cam1".to_string(),
            transform: None,
        }]),
    };
    let diffs = DiffDetector::detect_differences(&local, &expected);
    assert_eq!(diffs.len(), 1);
    assert_eq!(diffs[0].category, DiffCategory::SourceMissing);
    assert_eq!(diffs[0].severity, DiffSeverity::Warning);
    assert_eq!(diffs[0].source_name, "Cam1");
    assert_eq!(diffs[0].description, "Source 'Cam1' is missing");
}

#[test]
fn matched_source_transforms_are_compared() {
    let local = state(
        "S",
        vec![LocalSourceState {
            name: "Cam1".to_string(),
            transform: Some(transform(2000, 0, 1000, 1000)),
        }],
    );
    let expected = ExpectedState {
        current_scene: "S".to_string(),
        sources: Some(vec![LocalSourceState {
            name: "Cam1".to_string(),
            transform: Some(transform(0, 0, 1000, 1000)),
        }]),
    };
    let diffs = DiffDetector::detect_differences(&local, &expected);
    assert_eq!(diffs.len(), 1);
    assert_eq!(diffs[0].category, DiffCategory::TransformMismatch);
}
