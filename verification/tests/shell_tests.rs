//! Checks for the shell-facing helpers: source listing, connection status,
//! settings defaults and log-file naming.

use obs_sync::config::{log_file_name, AppSettings};
use obs_sync::obs::{collect_unique_sources, connection_status_from, SourceListing};

#[test]
fn sources_are_unique_by_name_keeping_first_kind() {
    let items = vec![
        SourceListing {
            source_name: "Cam".to_string(),
            source_kind: "dshow_input".to_string(),
        },
        SourceListing {
            source_name: "Logo".to_string(),
            source_kind: "image_source".to_string(),
        },
        SourceListing {
            source_name: "Cam".to_string(),
            source_kind: "other".to_string(),
        },
    ];
    let unique = collect_unique_sources(&items);
    assert_eq!(unique.len(), 2);
    assert_eq!(unique[0].source_name, "Cam");
    assert_eq!(unique[0].source_kind, "dshow_input");
    assert_eq!(unique[1].source_name, "Logo");
}

#[test]
fn connection_status_reflects_the_version_reply() {
    let up = connection_status_from(Some(("30.1".to_string(), "5.4".to_string())));
    assert!(up.connected);
    assert_eq!(up.obs_version.as_deref(), Some("30.1"));
    assert_eq!(up.obs_websocket_version.as_deref(), Some("5.4"));

    let down = connection_status_from(None);
    assert!(!down.connected);
    assert_eq!(down.obs_version, None);
    assert_eq!(down.obs_websocket_version, None);
}

#[test]
fn default_settings_match_the_shipped_configuration() {
    let settings = AppSettings::default();
    assert_eq!(settings.obs.host, "localhost");
    assert_eq!(settings.obs.port, 4455);
    assert_eq!(settings.obs.password, "");
    assert_eq!(settings.master.default_port, 8080);
    assert_eq!(settings.slave.default_host, "192.168.1.100");
    assert_eq!(settings.slave.default_port, 8080);
}

#[test]
fn log_files_are_named_by_utc_day() {
    assert_eq!(log_file_name(2026, 1, 5), "obs-sync-2026-01-05.log");
    assert_eq!(log_file_name(2026, 12, 31), "obs-sync-2026-12-31.log");
    assert_eq!(log_file_name(999, 10, 7), "obs-sync-0999-10-07.log");
}
