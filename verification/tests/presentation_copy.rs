use presenter_persistence::presentation_copy::{plan_presentation_copy, StageMarker};
use presenter_persistence::RepositoryError;

fn ids(v: &[&str]) -> Vec<String> {
    v.iter().map(|s| s.to_string()).collect()
}

fn marker(slide: &str, code: &str) -> StageMarker {
    StageMarker { slide_id: slide.to_string(), layout_code: code.to_string() }
}

#[test]
fn copy_needs_target_library() {
    let r = plan_presentation_copy("lib-x", false, true, "Song", &ids(&[]), &vec![], "p2", "s2", &ids(&[]));
    assert_eq!(r.err(), Some(RepositoryError::TargetNotFound("target library not found")));
}

#[test]
fn copy_needs_live_source() {
    let r = plan_presentation_copy("lib-x", true, false, "Song", &ids(&[]), &vec![], "p2", "s2", &ids(&[]));
    assert_eq!(r.err(), Some(RepositoryError::NotFound("presentation not found")));
}

#[test]
fn copy_renumbers_slides_and_moves_markers() {
    let source = ids(&["old-a", "old-b", "old-c"]);
    let fresh = ids(&["new-a", "new-b", "new-c"]);
    let markers = vec![marker("old-c", "lyrics"), marker("old-a", "full"), marker("old-a", "second")];
    let plan = plan_presentation_copy(
        "lib-target",
        true,
        true,
        "Amazing Grace",
        &source,
        &markers,
        "pres-new",
        "sync-new",
        &fresh,
    )
    .unwrap();
    assert_eq!(plan.presentation_id, "pres-new");
    assert_eq!(plan.library_id, "lib-target");
    assert_eq!(plan.name, "Amazing Grace");
    assert_eq!(plan.sync_id, "sync-new");
    let slides: Vec<(i32, &str, usize)> =
        plan.slides.iter().map(|s| (s.position, s.slide_id.as_str(), s.source_index)).collect();
    assert_eq!(slides, vec![(0, "new-a", 0), (1, "new-b", 1), (2, "new-c", 2)]);
    let copied: Vec<(&str, &str)> =
        plan.markers.iter().map(|m| (m.slide_id.as_str(), m.layout_code.as_str())).collect();
    assert_eq!(copied, vec![("new-a", "full"), ("new-c", "lyrics")]);
}
