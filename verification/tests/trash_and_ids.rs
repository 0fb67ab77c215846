use presenter_persistence::sync_ids::{
    choose_raw_sync_id, derive_sync_id, resolve_content_pure_sync_ids,
};
use presenter_persistence::trash_carry::{
    carried_state, fetch_old_trash_state, OldLibrary, OldPresentationRow, OldTrashState, RowState,
};

const NS: u128 = 0x6ba7_b810_9dad_11d1_80b4_00c0_4fd4_30c8;

fn v5(key: &str) -> String {
    uuid::Uuid::new_v5(&uuid::Uuid::from_u128(NS), key.as_bytes()).to_string()
}

#[test]
fn take_prefers_sync_id_then_consumes_the_name_key() {
    let trashed = RowState { deleted_at: Some(5), updated_at: 5 };
    let live = RowState { deleted_at: None, updated_at: 9 };
    let mut state = OldTrashState::empty();
    state.remember_sync_id("sid-a".to_string(), live);
    state.remember_name("Songs".to_string(), "Amazing".to_string(), trashed);
    assert_eq!(state.take("sid-a", "Songs", "Amazing"), Some(live));
    assert_eq!(state.take("sid-a", "Songs", "Amazing"), Some(trashed));
    assert_eq!(state.take("sid-a", "Songs", "Amazing"), None, "twin comes back live");
}

#[test]
fn old_trash_state_is_keyed_by_sync_id_and_name() {
    let rows = vec![
        OldPresentationRow {
            library_id: "old-lib".to_string(),
            name: "Song".to_string(),
            sync_id: "s1".to_string(),
            state: RowState { deleted_at: Some(3), updated_at: 3 },
        },
        OldPresentationRow {
            library_id: "gone".to_string(),
            name: "Other".to_string(),
            sync_id: "s2".to_string(),
            state: RowState { deleted_at: None, updated_at: 4 },
        },
    ];
    let libs = vec![OldLibrary { id: "old-lib".to_string(), name: "Songs".to_string() }];
    let mut state = fetch_old_trash_state(&rows, &libs);
    assert_eq!(state.take("new-id", "Songs", "Song"), Some(RowState { deleted_at: Some(3), updated_at: 3 }));
    assert_eq!(state.take("s2", "x", "y"), Some(RowState { deleted_at: None, updated_at: 4 }));
    assert_eq!(state.take("zzz", "Songs", "Other"), None);
    assert_eq!(carried_state(None, 77), RowState { deleted_at: None, updated_at: 77 });
}

#[test]
fn raw_sync_id_falls_back_when_blank() {
    assert_eq!(choose_raw_sync_id(Some("abc"), "fallback"), "abc");
    assert_eq!(choose_raw_sync_id(Some("   "), "fallback"), "fallback");
    assert_eq!(choose_raw_sync_id(None, "fallback"), "fallback");
}

#[test]
fn derived_ids_skip_taken_candidates() {
    let first = v5("raw/Lib/Song");
    assert_eq!(derive_sync_id(NS, "raw", "Lib", "Song", &vec![], &vec![]), Some(first.clone()));
    let second = v5("raw/Lib/Song/2");
    assert_eq!(derive_sync_id(NS, "raw", "Lib", "Song", &vec![first.clone()], &vec![]), Some(second.clone()));
    assert_eq!(
        derive_sync_id(NS, "raw", "Lib", "Song", &vec![first], &vec![second]),
        Some(v5("raw/Lib/Song/3"))
    );
}

#[test]
fn content_pure_ids_keep_unique_raw_ids_only() {
    let names = vec!["A".to_string(), "B".to_string(), "C".to_string(), "D".to_string()];
    let raws = vec!["dup".to_string(), "u1".to_string(), "dup".to_string(), "foreign".to_string()];
    let foreign = vec!["foreign".to_string()];
    let out = resolve_content_pure_sync_ids(NS, "Lib", &names, &raws, &foreign).unwrap();
    assert_eq!(
        out,
        vec![v5("dup/Lib/A"), "u1".to_string(), v5("dup/Lib/C"), v5("foreign/Lib/D")]
    );
}
