use presenter_persistence::RepositoryError;
use presenter_persistence::library_tree::{
    assemble_library_tree, checked_library_tree, collect_slides, live_library_tree, summarize_libraries, LibraryRecord,
    PresentationRecord, SlideRecord,
};

fn lib(id: &str, name: &str) -> LibraryRecord {
    LibraryRecord { id: id.to_string(), name: name.to_string(), deleted: false }
}

fn pres(id: &str, library_id: &str, name: &str) -> PresentationRecord {
    PresentationRecord {
        id: id.to_string(),
        library_id: library_id.to_string(),
        name: name.to_string(),
        deleted: false,
    }
}

fn slide(id: &str, presentation_id: &str, position: i32) -> SlideRecord {
    SlideRecord { id: id.to_string(), presentation_id: presentation_id.to_string(), position }
}

#[test]
fn tree_groups_in_given_order() {
    let libraries = vec![lib("L1", "Alpha"), lib("L2", "Beta"), lib("L3", "Empty")];
    let presentations = vec![pres("P1", "L2", "Amazing"), pres("P2", "L1", "Blessed"), pres("P3", "L2", "Come")];
    let slides = vec![slide("S1", "P3", 0), slide("S2", "P1", 0), slide("S3", "P3", 1), slide("S4", "PX", 0)];
    let tree = assemble_library_tree(&libraries, &presentations, &slides);
    assert_eq!(tree.len(), 3);
    assert_eq!(tree[0].name, "Alpha");
    assert_eq!(tree[0].presentations.len(), 1);
    assert_eq!(tree[0].presentations[0].id, "P2");
    assert!(tree[0].presentations[0].slides.is_empty());
    assert_eq!(tree[1].presentations.len(), 2);
    assert_eq!(tree[1].presentations[0].name, "Amazing");
    assert_eq!(tree[1].presentations[1].name, "Come");
    let ids: Vec<&str> = tree[1].presentations[1].slides.iter().map(|s| s.id.as_str()).collect();
    assert_eq!(ids, vec!["S1", "S3"]);
    assert!(tree[2].presentations.is_empty());
}

#[test]
fn slides_of_unknown_presentation_are_none() {
    let slides = vec![slide("S1", "P1", 0)];
    assert!(collect_slides(&slides, "P9").is_empty());
}

#[test]
fn summaries_count_presentations() {
    let libraries = vec![lib("L1", "Alpha"), lib("L2", "Beta")];
    let presentations = vec![pres("P1", "L2", "A"), pres("P2", "L2", "B"), pres("P3", "L1", "C")];
    let s = summarize_libraries(&libraries, &presentations);
    assert_eq!(s.len(), 2);
    assert_eq!(s[0].presentation_count, 1);
    assert_eq!(s[1].presentation_count, 2);
    assert_eq!(s[1].presentations[0].id, "P1");
    assert_eq!(s[1].presentations[1].id, "P2");
}

#[test]
fn tombstone_by_sync_id_hides_the_library() {
    let mut gone = lib("L0", "Archive");
    gone.deleted = true;
    let libraries = vec![lib("L2", "Zeta"), gone, lib("L1", "Alpha")];
    let mut trashed = pres("P9", "L1", "Aardvark");
    trashed.deleted = true;
    let presentations = vec![pres("P2", "L1", "Come"), trashed, pres("P1", "L1", "Blessed")];
    let slides = vec![slide("S2", "P1", 1), slide("S1", "P1", 0)];
    let tree = live_library_tree(&libraries, &presentations, &slides);
    let names: Vec<&str> = tree.iter().map(|l| l.name.as_str()).collect();
    assert_eq!(names, vec!["Alpha", "Zeta"]);
    let pres_names: Vec<&str> = tree[0].presentations.iter().map(|p| p.name.as_str()).collect();
    assert_eq!(pres_names, vec!["Blessed", "Come"]);
    let slide_ids: Vec<&str> = tree[0].presentations[0].slides.iter().map(|s| s.id.as_str()).collect();
    assert_eq!(slide_ids, vec!["S1", "S2"]);
}

const U1: &str = "11111111-1111-4111-8111-111111111111";
const U2: &str = "22222222-2222-4222-8222-222222222222";
const U3: &str = "33333333-3333-4333-8333-333333333333";

#[test]
fn checked_tree_accepts_uuid_ids() {
    let libraries = vec![lib(U1, "Songs")];
    let presentations = vec![pres(U2, U1, "Amazing Grace")];
    let slides = vec![slide(U3, U2, 0)];
    let tree = checked_library_tree(&libraries, &presentations, &slides).unwrap();
    assert_eq!(tree.len(), 1);
    assert_eq!(tree[0].presentations[0].slides[0].id, U3);
}

#[test]
fn checked_tree_refuses_the_first_unreadable_id() {
    // A slide id is read before its presentation's, a presentation's before
    // its library's.
    let libraries = vec![lib("bad-lib", "Songs")];
    let presentations = vec![pres("bad-pres", "bad-lib", "Amazing Grace")];
    let slides = vec![slide("bad-slide", "bad-pres", 0)];
    assert_eq!(
        checked_library_tree(&libraries, &presentations, &slides).unwrap_err(),
        RepositoryError::InvalidUuid("bad-slide".to_string())
    );
    let slides = vec![slide(U3, "bad-pres", 0)];
    assert_eq!(
        checked_library_tree(&libraries, &presentations, &slides).unwrap_err(),
        RepositoryError::InvalidUuid("bad-pres".to_string())
    );
    let mut trashed = pres("bad-pres", "bad-lib", "Amazing Grace");
    trashed.deleted = true;
    assert_eq!(
        checked_library_tree(&libraries, &vec![trashed], &slides).unwrap_err(),
        RepositoryError::InvalidUuid("bad-lib".to_string())
    );
    let mut gone = lib("bad-lib", "Songs");
    gone.deleted = true;
    assert!(checked_library_tree(&vec![gone], &presentations, &slides).unwrap().is_empty());
}
