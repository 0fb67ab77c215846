use presenter_persistence::whep::{new_session_id, WhepConnectionState};

#[test]
fn new_session_id_is_a_valid_uuid_v4() {
    let id = new_session_id();
    let parsed = uuid::Uuid::parse_str(&id).expect("session id must parse as UUID");
    assert_eq!(
        parsed.get_version(),
        Some(uuid::Version::Random),
        "session id must be UUIDv4 (Version::Random), got {:?}",
        parsed.get_version()
    );
}

#[test]
fn new_session_id_is_unique_per_call() {
    let a = new_session_id();
    let b = new_session_id();
    assert_ne!(a, b, "two calls must return distinct UUIDs");
}

#[test]
fn connection_state_maps_gst_values_correctly() {
    assert_eq!(WhepConnectionState::from_gst_value(0), WhepConnectionState::New);
    assert_eq!(WhepConnectionState::from_gst_value(1), WhepConnectionState::Connecting);
    assert_eq!(WhepConnectionState::from_gst_value(2), WhepConnectionState::Connected);
    assert_eq!(WhepConnectionState::from_gst_value(3), WhepConnectionState::Disconnected);
    assert_eq!(WhepConnectionState::from_gst_value(4), WhepConnectionState::Failed);
    assert_eq!(WhepConnectionState::from_gst_value(5), WhepConnectionState::Closed);
    assert_eq!(WhepConnectionState::from_gst_value(99), WhepConnectionState::New);
}

#[test]
fn connection_state_serializes_as_lowercase_string() {
    let s = serde_json::to_string(WhepConnectionState::Connected.as_str()).unwrap();
    assert_eq!(s, "\"connected\"");
}

#[test]
fn negative_gst_values_read_as_new() {
    assert_eq!(WhepConnectionState::from_gst_value(-1), WhepConnectionState::New);
    assert_eq!(WhepConnectionState::Disconnected.as_str(), "disconnected");
}

#[test]
fn session_id_reads_back_with_version_four() {
    let id = new_session_id();
    let v = presenter_persistence::uuid_text::parse_uuid(&id).expect("parses");
    assert_eq!((v >> 76) & 0xf, 4);
}
