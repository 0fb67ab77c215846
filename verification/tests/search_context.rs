use presenter_persistence::RepositoryError;
use presenter_persistence::search::{
    contains_text, search_query, LibraryName, SearchContext, SearchMatchField, SearchResultKind,
    SearchPhase, SlideTexts, SlideVerdict,
};

const L1: &str = "11111111-1111-4111-8111-111111111111";
const L2: &str = "22222222-2222-4222-8222-222222222222";
const LIB: &str = "33333333-3333-4333-8333-333333333333";
const P0: &str = "40000000-0000-4000-8000-000000000000";
const P1: &str = "41111111-1111-4111-8111-111111111111";
const P2: &str = "42222222-2222-4222-8222-222222222222";
const P3: &str = "43333333-3333-4333-8333-333333333333";
const P4: &str = "44444444-4444-4444-8444-444444444444";

fn chars(s: &str) -> Vec<char> {
    s.chars().collect()
}

fn texts(main: &str, translation: &str, stage: &str) -> SlideTexts {
    SlideTexts {
        main: main.to_string(),
        main_search: main.to_lowercase(),
        translation: translation.to_string(),
        translation_search: translation.to_lowercase(),
        stage: stage.to_string(),
        stage_search: stage.to_lowercase(),
    }
}

#[test]
fn blank_queries_have_no_search() {
    assert_eq!(search_query("   "), None);
    assert_eq!(search_query("  Chvaly "), Some("Chvaly".to_string()));
}

#[test]
fn limit_is_clamped() {
    assert_eq!(SearchContext::new("x", &vec![], 0).cap, 1);
    assert_eq!(SearchContext::new("x", &vec![], 10).cap, 10);
    assert_eq!(SearchContext::new("x", &vec![], 1000).cap, 100);
}

#[test]
fn substring_search() {
    assert!(contains_text(&chars("jezis, ja ta chvalim"), &chars("ja ta")));
    assert!(contains_text(&chars("abc"), &chars("")));
    assert!(!contains_text(&chars("ab"), &chars("abc")));
    assert!(!contains_text(&chars("abcab"), &chars("ac")));
}

#[test]
fn libraries_need_every_token_but_match_on_any() {
    let tokens = vec!["tymy".to_string(), "worship".to_string()];
    let mut ctx = SearchContext::new("tymy worship", &tokens, 10);
    assert!(ctx.offer_library(L1, "TYMY Worship", "tymy worship").unwrap());
    assert!(!ctx.offer_library(L1, "TYMY Worship", "tymy worship").unwrap(), "repeat ignored");
    assert!(!ctx.offer_library(L2, "TYMY Youth", "tymy youth").unwrap());
    assert_eq!(ctx.results.len(), 1);
    assert_eq!(ctx.results[0].kind, SearchResultKind::Library);
    assert_eq!(ctx.results[0].match_field, SearchMatchField::LibraryName);
    assert_eq!(ctx.matched_library_ids, vec![L1.to_string(), L2.to_string()]);
    assert_eq!(ctx.remaining(), 9);
}

#[test]
fn presentations_and_slides_are_deduplicated() {
    let tokens = vec!["nadej".to_string()];
    let mut ctx = SearchContext::new("Nadej", &tokens, 10);
    let lib = LibraryName { id: LIB.to_string(), name: "Chvály".to_string() };
    assert!(!ctx.offer_presentation(P0, "Nadej", None, "nadej").unwrap());
    assert!(ctx.offer_presentation(P1, "Nadej", Some(&lib), "nadej chvaly").unwrap());
    assert!(!ctx.offer_presentation(P1, "Nadej", Some(&lib), "nadej chvaly").unwrap());
    assert!(!ctx.offer_presentation(P2, "Welcome", Some(&lib), "welcome chvaly").unwrap());
    assert!(ctx.accept_slide("s1"));
    assert!(!ctx.accept_slide("s1"));
    assert!(ctx.knows_library(LIB));
    assert_eq!(
        ctx.admit_slide(P1, "Nadej", LIB, &texts("nadej", "", ""), "chvaly nadej nadej"),
        Ok(SlideVerdict::Skipped)
    );
    assert_eq!(
        ctx.admit_slide(P3, "Welcome", LIB, &texts("x", "nadej je", ""), "chvaly welcome x nadej je"),
        Ok(SlideVerdict::Added)
    );
    let last = ctx.results.last().unwrap();
    assert_eq!(last.match_field, SearchMatchField::TranslationText);
    assert_eq!(last.library_name, "Chvály");
    assert_eq!(
        ctx.admit_slide(P4, "Other", LIB, &texts("x", "y", "z"), "chvaly other x y z"),
        Ok(SlideVerdict::Skipped)
    );
}

#[test]
fn full_context_stops_the_slide_phase() {
    let mut ctx = SearchContext::new("a", &vec![], 1);
    let lib = LibraryName { id: LIB.to_string(), name: "L".to_string() };
    assert!(ctx.offer_presentation(P1, "a", Some(&lib), "a l").unwrap());
    assert!(ctx.is_full());
    assert_eq!(
        ctx.admit_slide(P2, "b", LIB, &texts("a", "", ""), "l b a"),
        Ok(SlideVerdict::Full)
    );
}

#[test]
fn literal_match_field_without_tokens() {
    let mut ctx = SearchContext::new("Stage cue", &vec![], 5);
    ctx.remember_library_name(LIB, "Youth Set");
    assert_eq!(
        ctx.admit_slide(P1, "Song", LIB, &texts("main", "trans", "Stage cue here"), ""),
        Ok(SlideVerdict::Added)
    );
    assert_eq!(ctx.results[0].match_field, SearchMatchField::StageText);
    assert_eq!(ctx.results[0].library_name, "Youth Set");
}

#[test]
fn an_unparseable_stored_id_fails_the_search() {
    let mut ctx = SearchContext::new("songs", &vec![], 5);
    assert_eq!(
        ctx.offer_library("not-a-uuid", "Songs", "songs"),
        Err(RepositoryError::InvalidUuid("not-a-uuid".to_string()))
    );
    let lib = LibraryName { id: LIB.to_string(), name: "L".to_string() };
    assert_eq!(
        ctx.offer_presentation("bad", "Songs", Some(&lib), "songs l"),
        Err(RepositoryError::InvalidUuid("bad".to_string()))
    );
    assert_eq!(
        ctx.admit_slide(P1, "Song", "bad-lib", &texts("songs", "", ""), ""),
        Err(RepositoryError::InvalidUuid("bad-lib".to_string()))
    );
}

#[test]
fn a_whole_search_stays_within_the_clamped_limit() {
    let mut ctx = SearchContext::new("x", &vec![], 0);
    let lib = LibraryName { id: LIB.to_string(), name: "L".to_string() };
    assert!(ctx.offer_presentation(P1, "x", Some(&lib), "x l").unwrap());
    assert!(ctx.is_full());
    assert_eq!(ctx.finish().len(), 1);
}

#[test]
fn skipped_rows_are_answered_false_not_refused() {
    let tokens = vec!["nadej".to_string()];
    let mut ctx = SearchContext::new("nadej", &tokens, 10);
    // Orphaned and repeated rows skip with `Ok(false)`, even with ids that
    // would not parse.
    assert_eq!(ctx.offer_presentation("not-a-uuid", "Nadej", None, "nadej"), Ok(false));
    assert!(ctx.offer_library(L1, "Nadej", "nadej").unwrap());
    assert_eq!(ctx.offer_library(L1, "Nadej", "nadej"), Ok(false));
    let lib = LibraryName { id: LIB.to_string(), name: "L".to_string() };
    assert!(ctx.offer_presentation(P1, "Nadej", Some(&lib), "nadej l").unwrap());
    assert_eq!(ctx.offer_presentation(P1, "Nadej", Some(&lib), "nadej l"), Ok(false));
    assert_eq!(ctx.results.len(), 2);
    // A presentation added by a slide is recorded, so its other slides skip.
    assert_eq!(
        ctx.admit_slide(P2, "Nadej 2", LIB, &texts("nadej", "", ""), "l nadej nadej"),
        Ok(SlideVerdict::Added)
    );
    assert!(ctx.seen_presentation_ids.contains(&P2.to_string()));
    assert_eq!(
        ctx.admit_slide(P2, "Nadej 2", LIB, &texts("nadej znovu", "", ""), "l nadej nadej znovu"),
        Ok(SlideVerdict::Skipped)
    );
    assert_eq!(ctx.results.len(), 3);
}

#[test]
fn phases_follow_the_results() {
    let tokens = vec!["tymy".to_string()];
    let mut ctx = SearchContext::new("tymy", &tokens, 2);
    assert_eq!(ctx.next_phase(SearchPhase::Libraries), SearchPhase::Presentations);
    assert!(!ctx.offer_library(L1, "Other", "other").unwrap());
    assert!(ctx.offer_library(L2, "Tymy", "tymy").unwrap());
    assert_eq!(ctx.next_phase(SearchPhase::Libraries), SearchPhase::MatchedPresentations);
    assert_eq!(ctx.next_phase(SearchPhase::MatchedPresentations), SearchPhase::Presentations);
    assert_eq!(ctx.next_phase(SearchPhase::Presentations), SearchPhase::Slides);
    assert_eq!(ctx.next_phase(SearchPhase::Slides), SearchPhase::Done);
    assert!(ctx.offer_library(LIB, "Tymy 2", "tymy 2").unwrap());
    assert!(ctx.is_full());
    assert_eq!(ctx.next_phase(SearchPhase::Libraries), SearchPhase::Done);
    assert_eq!(ctx.next_phase(SearchPhase::Presentations), SearchPhase::Done);
    assert_eq!(ctx.next_phase(SearchPhase::Done), SearchPhase::Done);
}
