use presenter_persistence::convert::{
    ableset_numbers, cast_ableset_port, cast_osc_port, cast_prefix_length, device_port, osc_fields,
    parse_timer_state, parse_velocity_mode, stage_state_ids, timer_state_to_string,
    to_domain_playlist_entry, velocity_mode_to_string, DevicePortError, PlaylistEntry,
    PlaylistEntryKind, PlaylistEntryRow, TimerState, VelocityMode,
};
use presenter_persistence::uuid_text::parse_uuid;
use presenter_persistence::{RepositoryError, SettingsAuditSource};

const ID: &str = "67e55044-10b1-426f-9247-bb680e5fe0c8";
const PID: &str = "936da01f-9abd-4d9d-80c7-02af85c822a8";

#[test]
fn audit_sources_have_snake_case_names() {
    assert_eq!(SettingsAuditSource::HttpSetter.as_str(), "http_setter");
    assert_eq!(SettingsAuditSource::CompanionSetter.as_str(), "companion_setter");
    assert_eq!(SettingsAuditSource::StartupDefault.as_str(), "startup_default");
    assert_eq!(SettingsAuditSource::SchemaMigration.as_str(), "schema_migration");
}

#[test]
fn ports_and_prefixes_are_range_checked() {
    assert_eq!(cast_ableset_port(9000), Ok(9000));
    assert_eq!(cast_ableset_port(0), Err(RepositoryError::InvalidAbleSetPort(0)));
    assert_eq!(cast_ableset_port(65536), Err(RepositoryError::InvalidAbleSetPort(65536)));
    assert_eq!(cast_ableset_port(65535), Ok(65535));
    assert_eq!(cast_prefix_length(255), Ok(255));
    assert_eq!(cast_prefix_length(256), Err(RepositoryError::InvalidAbleSetPrefix(256)));
    assert_eq!(cast_prefix_length(-3), Err(RepositoryError::InvalidAbleSetPrefix(-3)));
    assert_eq!(cast_osc_port(-1), Err(RepositoryError::InvalidOscPort(-1)));
    assert_eq!(cast_osc_port(10023), Ok(10023));
    assert_eq!(ableset_numbers(9000, 0, 2), Err(RepositoryError::InvalidAbleSetPort(0)));
    assert_eq!(ableset_numbers(9000, 80, 2), Ok((9000, 80, 2)));
    assert_eq!(ableset_numbers(9000, 80, 0), Err(RepositoryError::InvalidAbleSetPrefix(0)));
}

#[test]
fn device_ports_distinguish_range_and_zero() {
    assert_eq!(device_port(8090), Ok(8090));
    assert_eq!(device_port(0), Err(DevicePortError::Zero));
    assert_eq!(device_port(-5), Err(DevicePortError::OutOfRange));
    assert_eq!(device_port(70000), Err(DevicePortError::OutOfRange));
}

#[test]
fn velocity_modes_parse_case_insensitively() {
    assert_eq!(parse_velocity_mode("Zero_Based"), Ok(VelocityMode::ZeroBased));
    assert_eq!(parse_velocity_mode("0"), Ok(VelocityMode::ZeroBased));
    assert_eq!(parse_velocity_mode("ONE-BASED"), Ok(VelocityMode::OneBased));
    assert_eq!(parse_velocity_mode("one"), Ok(VelocityMode::OneBased));
    assert_eq!(
        parse_velocity_mode("Half"),
        Err(RepositoryError::UnknownOscVelocityMode("half".to_string()))
    );
    assert_eq!(velocity_mode_to_string(VelocityMode::ZeroBased), "zero_based");
    assert_eq!(velocity_mode_to_string(VelocityMode::OneBased), "one_based");
    assert_eq!(osc_fields("one", 9000), Ok((VelocityMode::OneBased, 9000)));
    assert_eq!(osc_fields("one", 0), Err(RepositoryError::InvalidOscPort(0)));
}

#[test]
fn timer_states_round_trip_and_reject_unknown() {
    for state in [TimerState::Idle, TimerState::Running, TimerState::Paused, TimerState::Completed] {
        assert_eq!(parse_timer_state(&timer_state_to_string(state)), Ok(state));
    }
    assert_eq!(timer_state_to_string(TimerState::Paused), "paused");
    assert_eq!(
        parse_timer_state("Running"),
        Err(RepositoryError::UnknownTimerState("Running".to_string()))
    );
}

#[test]
fn uuids_parse_or_are_refused_with_their_text() {
    assert_eq!(parse_uuid(ID), Ok(uuid::Uuid::parse_str(ID).unwrap().as_u128()));
    assert_eq!(
        parse_uuid("not-a-uuid"),
        Err(RepositoryError::InvalidUuid("not-a-uuid".to_string()))
    );
}

fn entry(entry_type: &str, label: Option<&str>, pid: Option<&str>, midi: Option<i32>) -> PlaylistEntryRow {
    PlaylistEntryRow {
        id: ID.to_string(),
        entry_type: entry_type.to_string(),
        label: label.map(str::to_string),
        presentation_id: pid.map(str::to_string),
        midi_note: midi,
    }
}

#[test]
fn playlist_entries_read_back_by_type() {
    let id = uuid::Uuid::parse_str(ID).unwrap().as_u128();
    let pid = uuid::Uuid::parse_str(PID).unwrap().as_u128();
    assert_eq!(
        to_domain_playlist_entry(&entry("Separator", Some("  Doors Open "), None, None)),
        Ok(PlaylistEntry { id, kind: PlaylistEntryKind::Separator { name: "Doors Open".to_string() } })
    );
    assert_eq!(
        to_domain_playlist_entry(&entry("separator", None, None, None)),
        Ok(PlaylistEntry { id, kind: PlaylistEntryKind::Separator { name: "Separator".to_string() } })
    );
    assert_eq!(
        to_domain_playlist_entry(&entry("SONG", None, Some(PID), Some(60))),
        Ok(PlaylistEntry {
            id,
            kind: PlaylistEntryKind::Presentation { presentation_id: pid, midi_note: Some(60) }
        })
    );
    assert_eq!(
        to_domain_playlist_entry(&entry("", None, Some(PID), None)),
        Ok(PlaylistEntry {
            id,
            kind: PlaylistEntryKind::Presentation { presentation_id: pid, midi_note: None }
        })
    );
    assert_eq!(
        to_domain_playlist_entry(&entry("item", None, None, None)),
        Err(RepositoryError::UnknownPlaylistEntryType("item".to_string()))
    );
    assert_eq!(
        to_domain_playlist_entry(&entry("presentation", None, Some(PID), Some(200))),
        Err(RepositoryError::MidiOutOfRange(127))
    );
    assert_eq!(
        to_domain_playlist_entry(&entry("presentation", None, Some(PID), Some(-4))),
        Err(RepositoryError::MidiOutOfRange(0))
    );
    assert_eq!(
        to_domain_playlist_entry(&entry("Video", None, Some(PID), None)),
        Err(RepositoryError::UnknownPlaylistEntryType("video".to_string()))
    );
    assert_eq!(
        to_domain_playlist_entry(&entry("song", None, Some("zzz"), None)),
        Err(RepositoryError::InvalidUuid("zzz".to_string()))
    );
    let mut bad_id = entry("song", None, Some(PID), None);
    bad_id.id = "bad".to_string();
    assert_eq!(
        to_domain_playlist_entry(&bad_id),
        Err(RepositoryError::InvalidUuid("bad".to_string()))
    );
}

#[test]
fn stage_state_ids_parse_each_optional_id() {
    let id = uuid::Uuid::parse_str(ID).unwrap().as_u128();
    assert_eq!(stage_state_ids(None, None, None), Ok((None, None, None)));
    assert_eq!(stage_state_ids(Some(ID), None, Some(ID)), Ok((Some(id), None, Some(id))));
    assert_eq!(
        stage_state_ids(Some(ID), Some("x"), Some("y")),
        Err(RepositoryError::InvalidUuid("x".to_string()))
    );
}
