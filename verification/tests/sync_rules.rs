use chrono::{DateTime, Duration, Utc};
use presenter_persistence::sync::{
    classify_restore_library, find_library_id, find_most_recent_tombstoned_library,
    is_tombstone_retained, library_write, plan_delete_library, plan_prune, plan_rename_library, plan_apply_sync_library, plan_apply_sync_presentation, plan_ensure_library,
    plan_ensure_library_for_tombstone, plan_restore_presentation, presentation_write,
    resolve_conflict_free_name, revive_or_keep_tombstoned, EnsureLibraryPlan, LibraryApplyPlan,
    LibraryAttach, LibraryRow, PresentationApplyPlan, PresentationRow, RestoreWrite,
    SyncLibraryManifestRow, SyncPresentationStamp, TombstoneLibraryPlan, PRUNE_HORIZON_NANOS,
};
use presenter_persistence::{sync_should_apply, RepositoryError, SyncApplyOutcome};

fn nanos(t: DateTime<Utc>) -> i128 {
    t.timestamp() as i128 * 1_000_000_000 + t.timestamp_subsec_nanos() as i128
}

#[test]
fn lww_matrix() {
    let now = Utc::now();
    assert!(
        sync_should_apply(nanos(now), false, None),
        "unknown locally, peer not deleted → apply"
    );
    assert!(
        !sync_should_apply(nanos(now), true, None),
        "unknown locally AND peer deleted → never resurrect a pruned row (S7)"
    );
    assert!(
        sync_should_apply(nanos(now), false, Some(nanos(now - Duration::seconds(1)))),
        "peer newer → apply"
    );
    assert!(
        !sync_should_apply(nanos(now), false, Some(nanos(now + Duration::seconds(1)))),
        "peer older → skip"
    );
    assert!(
        !sync_should_apply(nanos(now), false, Some(nanos(now))),
        "equal → skip (no echo)"
    );
    assert!(
        sync_should_apply(nanos(now), true, Some(nanos(now - Duration::seconds(1)))),
        "peer newer delete of a row we STILL HOLD applies normally (trash propagation)"
    );
}

fn library_model(deleted: bool) -> LibraryRow {
    let now = nanos(Utc::now());
    LibraryRow {
        id: uuid::Uuid::new_v4().to_string(),
        name: "Songs".to_string(),
        sync_id: uuid::Uuid::new_v4().to_string(),
        updated_at: now,
        deleted_at: deleted.then_some(now),
    }
}

#[test]
fn missing_library_row_is_not_found() {
    assert!(matches!(
        classify_restore_library(None),
        Err(RepositoryError::NotFound(_))
    ));
}

#[test]
fn tombstoned_library_row_is_conflict() {
    let tombstoned = library_model(true);
    assert!(matches!(
        classify_restore_library(Some(&tombstoned)),
        Err(RepositoryError::Conflict(_))
    ));
}

#[test]
fn live_library_row_is_ok() {
    let live = library_model(false);
    assert!(classify_restore_library(Some(&live)).is_ok());
}

#[test]
fn wrote_is_false_only_for_skips() {
    assert!(SyncApplyOutcome::Created.wrote());
    assert!(SyncApplyOutcome::Updated.wrote());
    assert!(SyncApplyOutcome::AdoptedByName.wrote());
    assert!(!SyncApplyOutcome::SkippedNotNewer.wrote());
}

fn row(id: &str, name: &str, sync_id: &str, updated_at: i128, deleted_at: Option<i128>) -> LibraryRow {
    LibraryRow {
        id: id.to_string(),
        name: name.to_string(),
        sync_id: sync_id.to_string(),
        updated_at,
        deleted_at,
    }
}

fn incoming(sync_id: &str, name: &str, updated_at: i128, deleted_at: Option<i128>) -> SyncLibraryManifestRow {
    SyncLibraryManifestRow {
        sync_id: sync_id.to_string(),
        name: name.to_string(),
        updated_at,
        deleted_at,
    }
}

#[test]
fn library_apply_matches_by_sync_id_and_renames_in_place() {
    let local = row("lib-1", "Old", "sid", 10, None);
    let plan = plan_apply_sync_library(&incoming("sid", "New", 20, None), Some(&local), None, 20);
    assert_eq!(
        plan,
        LibraryApplyPlan::UpdateInPlace { local_id: "lib-1".to_string(), disambiguate: true }
    );
    assert_eq!(plan.outcome(), SyncApplyOutcome::Updated);
    let tomb = plan_apply_sync_library(&incoming("sid", "Old", 20, Some(20)), Some(&local), None, 20);
    assert_eq!(
        tomb,
        LibraryApplyPlan::UpdateInPlace { local_id: "lib-1".to_string(), disambiguate: false }
    );
}

#[test]
fn library_apply_skips_when_local_is_newer_or_equal() {
    let local = row("lib-1", "Songs", "sid", 30, None);
    assert_eq!(
        plan_apply_sync_library(&incoming("sid", "Songs", 20, None), Some(&local), None, 20),
        LibraryApplyPlan::Skip
    );
    assert_eq!(
        plan_apply_sync_library(&incoming("sid", "Songs", 30, None), Some(&local), None, 20),
        LibraryApplyPlan::Skip
    );
}

#[test]
fn library_apply_adopts_live_same_name_and_never_for_a_tombstone() {
    let live = row("lib-2", "Songs", "other", 5, None);
    let plan = plan_apply_sync_library(&incoming("sid", "Songs", 10, None), None, Some(&live), 20);
    assert_eq!(plan, LibraryApplyPlan::AdoptByName { local_id: "lib-2".to_string() });
    assert_eq!(plan.outcome(), SyncApplyOutcome::AdoptedByName);
    let tomb = plan_apply_sync_library(&incoming("sid", "Songs", 10, Some(10)), None, Some(&live), 20);
    assert_eq!(tomb, LibraryApplyPlan::Create, "a separate trashed row, the live one untouched");
}

#[test]
fn library_apply_creates_unknown_live_rows_only() {
    assert_eq!(
        plan_apply_sync_library(&incoming("sid", "Songs", 10, None), None, None, 20),
        LibraryApplyPlan::Create
    );
    assert_eq!(
        plan_apply_sync_library(&incoming("sid", "Songs", 10, None), None, None, 20).outcome(),
        SyncApplyOutcome::Created
    );
}

#[test]
fn conflict_free_name_appends_the_first_free_suffix() {
    let taken = vec!["Songs".to_string(), "Songs (2)".to_string(), "Hymns".to_string()];
    assert_eq!(resolve_conflict_free_name("Choir", &taken), "Choir");
    assert_eq!(resolve_conflict_free_name("Songs", &taken), "Songs (3)");
    assert_eq!(resolve_conflict_free_name("Hymns", &taken), "Hymns (2)");
    let many: Vec<String> = std::iter::once("A".to_string())
        .chain((2..=11).map(|k| format!("A ({k})")))
        .collect();
    assert_eq!(resolve_conflict_free_name("A", &many), "A (12)");
}

#[test]
fn revive_or_keep_follows_the_library_clock() {
    let live = row("l", "Choir", "s", 10, None);
    assert_eq!(
        revive_or_keep_tombstoned(&live, 5),
        LibraryAttach { library_id: "l".to_string(), revive_at: None, forced_tombstone_at: None }
    );
    let dead = row("d", "Choir", "s", 10, Some(10));
    assert_eq!(
        revive_or_keep_tombstoned(&dead, 30),
        LibraryAttach { library_id: "d".to_string(), revive_at: Some(30), forced_tombstone_at: None }
    );
    assert_eq!(
        revive_or_keep_tombstoned(&dead, 10),
        LibraryAttach { library_id: "d".to_string(), revive_at: None, forced_tombstone_at: Some(10) }
    );
}

#[test]
fn identity_is_authoritative_for_the_live_library() {
    let by_id_dead = row("a", "New Name", "sid-a", 1, Some(1));
    let by_name = row("b", "Old Name", "sid-b", 1, None);
    assert_eq!(find_library_id(Some(&by_id_dead), Some(&by_name)), None);
    let by_id_live = row("a", "New Name", "sid-a", 1, None);
    assert_eq!(find_library_id(Some(&by_id_live), Some(&by_name)), Some("a".to_string()));
    assert_eq!(find_library_id(None, Some(&by_name)), Some("b".to_string()));
    assert_eq!(find_library_id(None, None), None);
}

#[test]
fn ensure_library_prefers_identity_then_live_name_then_tombstone() {
    let ident = row("i", "X", "s", 10, Some(10));
    let live = row("l", "X", "t", 1, None);
    let tomb = row("t", "X", "u", 50, Some(50));
    assert_eq!(
        plan_ensure_library(Some(&ident), Some(&live), Some(&tomb), 20),
        EnsureLibraryPlan::Attach(LibraryAttach {
            library_id: "i".to_string(),
            revive_at: Some(20),
            forced_tombstone_at: None
        })
    );
    assert_eq!(
        plan_ensure_library(None, Some(&live), Some(&tomb), 20),
        EnsureLibraryPlan::Attach(LibraryAttach {
            library_id: "l".to_string(),
            revive_at: None,
            forced_tombstone_at: None
        })
    );
    assert_eq!(
        plan_ensure_library(None, None, Some(&tomb), 20),
        EnsureLibraryPlan::Attach(LibraryAttach {
            library_id: "t".to_string(),
            revive_at: None,
            forced_tombstone_at: Some(50)
        })
    );
    assert_eq!(plan_ensure_library(None, None, None, 20), EnsureLibraryPlan::CreateLive);
    assert_eq!(
        plan_ensure_library_for_tombstone(None, None, Some(&tomb)),
        TombstoneLibraryPlan::Existing("t".to_string())
    );
    assert_eq!(
        plan_ensure_library_for_tombstone(None, None, None),
        TombstoneLibraryPlan::CreateTombstoned
    );
}

#[test]
fn most_recent_tombstone_breaks_ties_by_sync_id() {
    let rows = vec![
        row("lib-older", "Songs", "sync-aaa", 120, Some(120)),
        row("lib-newer", "Songs", "sync-bbb", 120, Some(120)),
        row("lib-live", "Songs", "sync-zzz", 500, None),
        row("other", "Hymns", "sync-yyy", 900, Some(900)),
    ];
    assert_eq!(find_most_recent_tombstoned_library(&rows, "Songs"), Some(1));
    let rows2 = vec![
        row("lib-recent-update", "Songs", "sync-aaa", 300, Some(10)),
        row("lib-earliest-delete", "Songs", "sync-bbb", 120, Some(120)),
    ];
    assert_eq!(find_most_recent_tombstoned_library(&rows2, "Songs"), Some(0));
    assert_eq!(find_most_recent_tombstoned_library(&rows2, "songs"), None);
}

fn pres(id: &str, name: &str, sync_id: &str, updated_at: i128, deleted_at: Option<i128>) -> PresentationRow {
    PresentationRow {
        id: id.to_string(),
        library_id: "lib".to_string(),
        name: name.to_string(),
        sync_id: sync_id.to_string(),
        updated_at,
        deleted_at,
    }
}

fn stamp(sync_id: &str, name: &str, updated_at: i128, deleted_at: Option<i128>) -> SyncPresentationStamp {
    SyncPresentationStamp {
        sync_id: sync_id.to_string(),
        name: name.to_string(),
        updated_at,
        deleted_at,
    }
}

#[test]
fn presentation_apply_adopts_only_an_unambiguous_live_twin() {
    let rows = vec![pres("p1", "Song", "x", 5, None), pres("p2", "Song", "y", 5, Some(5))];
    assert_eq!(
        plan_apply_sync_presentation(&stamp("peer", "Song", 10, None), None, &rows),
        PresentationApplyPlan::Adopt { local_id: "p1".to_string() }
    );
    let twins = vec![pres("p1", "Song", "x", 5, None), pres("p2", "Song", "y", 5, None)];
    assert_eq!(
        plan_apply_sync_presentation(&stamp("peer", "Song", 10, None), None, &twins),
        PresentationApplyPlan::Create
    );
    assert_eq!(
        plan_apply_sync_presentation(&stamp("peer", "Song", 3, None), None, &rows),
        PresentationApplyPlan::Skip
    );
    let mine = pres("p9", "Other", "peer", 10, None);
    assert_eq!(
        plan_apply_sync_presentation(&stamp("peer", "Song", 10, None), Some(&mine), &rows),
        PresentationApplyPlan::Skip
    );
    assert_eq!(
        plan_apply_sync_presentation(&stamp("peer", "Song", 11, None), Some(&mine), &rows),
        PresentationApplyPlan::Update { local_id: "p9".to_string() }
    );
    assert_eq!(
        plan_apply_sync_presentation(&stamp("peer", "Song", 11, None), Some(&mine), &rows).outcome(),
        SyncApplyOutcome::Updated
    );
}

#[test]
fn a_recent_unknown_tombstone_is_created_as_trashed() {
    let now = nanos(Utc::now());
    let recent = now - 60_000_000_000;
    let plan = plan_apply_sync_library(&incoming("peer-trash", "Retired", recent, Some(recent)), None, None, now);
    assert_eq!(plan, LibraryApplyPlan::Create);
    let w = library_write(&incoming("peer-trash", "Retired", recent, Some(recent)), false, &vec![]);
    assert_eq!(w.deleted_at, Some(recent));
    assert_eq!(w.name, "Retired");
}

#[test]
fn an_unknown_tombstone_older_than_the_prune_horizon_is_never_resurrected() {
    let now = nanos(Utc::now());
    let old = nanos(Utc::now() - Duration::days(40));
    let plan = plan_apply_sync_library(&incoming("peer-gone", "Ancient", old, Some(old)), None, None, now);
    assert_eq!(plan, LibraryApplyPlan::Skip);
    assert_eq!(PRUNE_HORIZON_NANOS, nanos(DateTime::<Utc>::UNIX_EPOCH + Duration::days(30)));
}

#[test]
fn create_from_unknown_live_sync_id() {
    let inc = incoming("peer-1", "Songs", 42, None);
    assert_eq!(plan_apply_sync_library(&inc, None, None, 50), LibraryApplyPlan::Create);
    let w = library_write(&inc, false, &vec![]);
    assert_eq!((w.sync_id.as_str(), w.name.as_str(), w.updated_at, w.deleted_at), ("peer-1", "Songs", 42, None));
}

#[test]
fn rename_in_place_takes_the_peer_clock_and_a_free_name() {
    let inc = incoming("sid", "Hymns", 20, None);
    let w = library_write(&inc, true, &vec!["Hymns".to_string()]);
    assert_eq!(w.name, "Hymns (2)");
    assert_eq!(w.updated_at, 20);
    assert_eq!(w.sync_id, "sid");
    let tomb = library_write(&incoming("sid", "Hymns", 21, Some(21)), false, &vec!["Hymns".to_string()]);
    assert_eq!(tomb.name, "Hymns");
    assert_eq!(tomb.deleted_at, Some(21));
}

#[test]
fn applied_song_stores_the_peer_values() {
    let live = presentation_write(&stamp("s1", "Song", 30, None), "lib-9", None, 3);
    assert_eq!(live.library_id, "lib-9");
    assert_eq!(live.name, "Song");
    assert_eq!(live.sync_id, "s1");
    assert_eq!(live.updated_at, 30);
    assert_eq!(live.deleted_at, None);
    assert_eq!(live.slide_positions, vec![0, 1, 2]);
    assert!(!live.clean_playlist_entries);
    let tomb = presentation_write(&stamp("s1", "Song", 31, Some(31)), "lib-9", None, 0);
    assert_eq!(tomb.deleted_at, Some(31));
    assert!(tomb.clean_playlist_entries);
    let forced = presentation_write(&stamp("s1", "Song", 25, None), "lib-9", Some(40), 1);
    assert_eq!(forced.updated_at, 25);
    assert_eq!(forced.deleted_at, Some(40));
    assert!(forced.clean_playlist_entries);
}

#[test]
fn restore_presentation_refusals_and_write() {
    let trashed = pres("p1", "Song", "s", 10, Some(10));
    let live_song = pres("p1", "Song", "s", 10, None);
    let live_lib = library_model(false);
    let trashed_lib = library_model(true);
    assert_eq!(
        plan_restore_presentation(None, Some(&live_lib), 99),
        Err(RepositoryError::NotFound("no trashed presentation to restore"))
    );
    assert_eq!(
        plan_restore_presentation(Some(&live_song), Some(&live_lib), 99),
        Err(RepositoryError::NotFound("no trashed presentation to restore"))
    );
    assert!(matches!(
        plan_restore_presentation(Some(&trashed), None, 99),
        Err(RepositoryError::NotFound(_))
    ));
    assert!(matches!(
        plan_restore_presentation(Some(&trashed), Some(&trashed_lib), 99),
        Err(RepositoryError::Conflict(_))
    ));
    assert_eq!(
        plan_restore_presentation(Some(&trashed), Some(&live_lib), 99),
        Ok(RestoreWrite { presentation_id: "p1".to_string(), updated_at: 99, deleted_at: None })
    );
}

#[test]
fn tombstones_are_retained_within_the_horizon() {
    let now = nanos(Utc::now());
    assert!(is_tombstone_retained(now - 1, now));
    assert!(is_tombstone_retained(now - PRUNE_HORIZON_NANOS, now));
    assert!(!is_tombstone_retained(now - PRUNE_HORIZON_NANOS - 1, now));
    assert!(!is_tombstone_retained(nanos(Utc::now() - Duration::days(40)), now));
}

#[test]
fn prune_removes_only_old_tombstones() {
    let now = Utc::now();
    let rows: Vec<(&str, Option<i128>)> = vec![
        ("Live", None),
        ("OldTrash", Some(nanos(now - Duration::days(40)))),
        ("RecentTrash", Some(nanos(now))),
    ];
    let deleted: Vec<Option<i128>> = rows.iter().map(|r| r.1).collect();
    let retain = nanos(DateTime::<Utc>::UNIX_EPOCH + Duration::days(30));
    let pruned = plan_prune(&deleted, nanos(Utc::now()), retain);
    assert_eq!(pruned.len(), 1, "only the >30d tombstone is pruned");
    let names: Vec<String> = rows
        .iter()
        .enumerate()
        .filter(|(i, _)| !pruned.contains(i))
        .map(|(_, r)| r.0.to_string())
        .collect();
    assert!(names.contains(&"Live".to_string()));
    assert!(names.contains(&"RecentTrash".to_string()));
    assert!(!names.contains(&"OldTrash".to_string()), "old tombstone pruned");
}

#[test]
fn prune_keeps_a_tombstone_exactly_at_the_cutoff() {
    let deleted = vec![Some(70), Some(69), None, Some(100), Some(-5)];
    assert_eq!(plan_prune(&deleted, 100, 30), vec![1, 4]);
    assert_eq!(plan_prune(&deleted, 100, -1), vec![0, 1, 3, 4]);
    assert_eq!(plan_prune(&deleted, i128::MIN, 1), Vec::<usize>::new());
    assert_eq!(plan_prune(&vec![Some(i128::MAX)], i128::MAX, -1), vec![0]);
}

fn library(id: &str, name: &str, updated_at: i128, deleted_at: Option<i128>) -> LibraryRow {
    LibraryRow {
        id: id.to_string(),
        name: name.to_string(),
        sync_id: format!("sync-{id}"),
        updated_at,
        deleted_at,
    }
}

fn song(id: &str, library_id: &str, deleted_at: Option<i128>) -> PresentationRow {
    PresentationRow {
        id: id.to_string(),
        library_id: library_id.to_string(),
        name: id.to_string(),
        sync_id: format!("sync-{id}"),
        updated_at: 1,
        deleted_at,
    }
}

#[test]
fn rename_library_bumps_updated_at_for_propagation() {
    let before = library("l1", "Before", 10, None);
    let w = plan_rename_library(Some(&before), "After", 15).unwrap();
    assert_eq!(w.library_id, "l1");
    assert_eq!(w.name, "After");
    assert!(
        w.updated_at > before.updated_at,
        "rename must bump updated_at so the change propagates under LWW"
    );
    assert!(sync_should_apply(w.updated_at, false, Some(before.updated_at)));
}

#[test]
fn rename_and_delete_missing_library_error() {
    assert!(plan_rename_library(None, "x", 1).is_err());
    assert!(
        plan_delete_library(None, &Vec::new(), 1).is_err(),
        "delete of a missing library errors (the router maps it to 404)"
    );
    assert!(matches!(plan_rename_library(None, "x", 1), Err(RepositoryError::NotFound(_))));
}

#[test]
fn delete_library_trashes_only_its_live_presentations() {
    let lib = library("l1", "Songs", 3, None);
    let rows = vec![
        song("a", "l1", None),
        song("b", "l2", None),
        song("c", "l1", Some(7)),
        song("d", "l1", None),
    ];
    let t = plan_delete_library(Some(&lib), &rows, 42).unwrap();
    assert_eq!(t.library_id, "l1");
    assert_eq!(t.stamp, 42);
    assert_eq!(t.presentation_ids, vec!["a".to_string(), "d".to_string()]);
}
