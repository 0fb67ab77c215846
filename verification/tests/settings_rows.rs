use presenter_persistence::audit::parse_audit_source;
use presenter_persistence::convert::{timers_states, TimerState, VelocityMode};
use presenter_persistence::device_rows::{
    ableset_row_from_draft, android_row_from_draft, apply_resolume_edit,
    equal_ignoring_ascii_case, migrate_legacy_ableset, new_resolume_row, osc_row_from_draft,
    record_active_port, require_deleted, AbleSetDraft, AbleSetRow, AndroidStageDraft, OscDraft,
    ResolumeHostDraft, ResolumeHostRow,
};
use presenter_persistence::{RepositoryError, SettingsAuditSource};

fn stored_ableset(http: i32, osc: i32, name: &str) -> AbleSetRow {
    AbleSetRow {
        enabled: true,
        host: "ableset.local".to_string(),
        osc_port: osc,
        http_port: http,
        library_name: name.to_string(),
        song_prefix_length: 3,
    }
}

#[test]
fn ableset_draft_is_trimmed_and_widened() {
    let draft = AbleSetDraft {
        enabled: false,
        host: "  10.0.0.5 \n".to_string(),
        osc_port: 39051,
        http_port: 80,
        library_name: "\tSunday Set ".to_string(),
        song_prefix_length: 2,
    };
    let row = ableset_row_from_draft(&draft);
    assert!(!row.enabled);
    assert_eq!(row.host, "10.0.0.5");
    assert_eq!(row.osc_port, 39051);
    assert_eq!(row.http_port, 80);
    assert_eq!(row.library_name, "Sunday Set");
    assert_eq!(row.song_prefix_length, 2);
}

#[test]
fn legacy_ports_take_the_defaults() {
    let (row, touched) = migrate_legacy_ableset(stored_ableset(5950, 5950, "Set"), 80, 39051);
    assert!(touched);
    assert_eq!(row.http_port, 80);
    assert_eq!(row.osc_port, 39051);
    assert_eq!(row.library_name, "Set");
}

#[test]
fn one_legacy_port_is_repaired_alone() {
    let (row, touched) = migrate_legacy_ableset(stored_ableset(8080, 5950, "Set"), 80, 39051);
    assert!(touched);
    assert_eq!(row.http_port, 8080);
    assert_eq!(row.osc_port, 39051);
}

#[test]
fn legacy_library_name_forces_a_write_but_is_kept() {
    let (row, touched) = migrate_legacy_ableset(stored_ableset(80, 39051, "  newLevel "), 80, 39051);
    assert!(touched);
    assert_eq!(row.library_name, "  newLevel ");
    assert_eq!(row.http_port, 80);
}

#[test]
fn current_ableset_row_is_left_alone() {
    let (row, touched) = migrate_legacy_ableset(stored_ableset(80, 39051, "NEWLEVELS"), 80, 39051);
    assert!(!touched);
    assert_eq!(row.osc_port, 39051);
    assert_eq!(row.library_name, "NEWLEVELS");
}

#[test]
fn ascii_case_comparison() {
    assert!(equal_ignoring_ascii_case("NewLevel", "NEWLEVEL"));
    assert!(!equal_ignoring_ascii_case("NewLevel", "NEWLEVE"));
    assert!(!equal_ignoring_ascii_case("Ä", "ä"));
    assert!(equal_ignoring_ascii_case("", ""));
}

#[test]
fn osc_draft_row() {
    let row = osc_row_from_draft(&OscDraft {
        enabled: true,
        listen_port: 8000,
        address_pattern: " /presenter/* ".to_string(),
        velocity_mode: VelocityMode::OneBased,
    });
    assert!(row.enabled);
    assert_eq!(row.listen_port, 8000);
    assert_eq!(row.address_pattern, "/presenter/*");
    assert_eq!(row.velocity_mode, "one_based");
}

fn resolume_draft(label: &str, host: &str, port: u16) -> ResolumeHostDraft {
    ResolumeHostDraft { label: label.to_string(), host: host.to_string(), port, is_enabled: true }
}

#[test]
fn new_resolume_host_has_no_discovered_port() {
    let row = new_resolume_row(&resolume_draft(" Main ", " cg-resolume.lan ", 8080));
    assert_eq!(row.label, "Main");
    assert_eq!(row.host, "cg-resolume.lan");
    assert_eq!(row.port, 8080);
    assert_eq!(row.active_port, None);
}

fn stored_host() -> ResolumeHostRow {
    ResolumeHostRow {
        label: "Main".to_string(),
        host: "cg-resolume.lan".to_string(),
        port: 8080,
        is_enabled: true,
        active_port: Some(8081),
    }
}

#[test]
fn label_edit_keeps_discovered_port() {
    let row = apply_resolume_edit(&stored_host(), &resolume_draft("Backup", " cg-resolume.lan", 8080));
    assert_eq!(row.label, "Backup");
    assert_eq!(row.active_port, Some(8081));
}

#[test]
fn host_edit_clears_discovered_port() {
    let row = apply_resolume_edit(&stored_host(), &resolume_draft("Main", "other.lan", 8080));
    assert_eq!(row.host, "other.lan");
    assert_eq!(row.active_port, None);
}

#[test]
fn port_edit_clears_discovered_port() {
    let row = apply_resolume_edit(&stored_host(), &resolume_draft("Main", "cg-resolume.lan", 7000));
    assert_eq!(row.port, 7000);
    assert_eq!(row.active_port, None);
}

#[test]
fn discovered_port_is_recorded_and_healed() {
    let drifted = record_active_port(&stored_host(), Some(9000));
    assert_eq!(drifted.active_port, Some(9000));
    assert_eq!(drifted.port, 8080);
    let healed = record_active_port(&drifted, None);
    assert_eq!(healed.active_port, None);
    assert_eq!(healed.host, "cg-resolume.lan");
}

#[test]
fn android_draft_row() {
    let row = android_row_from_draft(&AndroidStageDraft {
        label: " Stage ".to_string(),
        host: "10.0.0.9 ".to_string(),
        port: 5555,
        launch_component: " com.example/.Main ".to_string(),
        is_enabled: false,
    });
    assert_eq!(row.label, "Stage");
    assert_eq!(row.host, "10.0.0.9");
    assert_eq!(row.port, 5555);
    assert_eq!(row.launch_component, "com.example/.Main");
    assert!(!row.is_enabled);
}

#[test]
fn delete_of_missing_row_is_not_found() {
    assert_eq!(
        require_deleted(0, "resolume host not found"),
        Err(RepositoryError::NotFound("resolume host not found"))
    );
    assert_eq!(require_deleted(1, "resolume host not found"), Ok(()));
}

#[test]
fn stored_audit_sources_read_back() {
    for source in [
        SettingsAuditSource::HttpSetter,
        SettingsAuditSource::CompanionSetter,
        SettingsAuditSource::StartupDefault,
        SettingsAuditSource::SchemaMigration,
        SettingsAuditSource::PortDriftDiscovery,
    ] {
        assert_eq!(parse_audit_source(source.as_str()), Ok(source));
    }
    assert_eq!(
        parse_audit_source("port_drift"),
        Err(RepositoryError::Invalid("unknown source: port_drift".to_string()))
    );
    assert_eq!(
        SettingsAuditSource::PortDriftDiscovery.as_str(),
        "port_drift_discovery"
    );
}

#[test]
fn timers_row_states() {
    assert_eq!(timers_states("running", "paused"), Ok((TimerState::Running, TimerState::Paused)));
    assert_eq!(
        timers_states("stopped", "bogus"),
        Err(RepositoryError::UnknownTimerState("stopped".to_string()))
    );
    assert_eq!(
        timers_states("idle", "bogus"),
        Err(RepositoryError::UnknownTimerState("bogus".to_string()))
    );
}
