use presenter_persistence::bible_import::{
    append_start, apply_translation_edit, bible_slide_order, chapter_summary, insert_chunk_sizes,
    plan_bible_import, plan_translation_row, resolve_book_key, ImportStep, slide_counts, slide_orders, ChapterRow, SlideCountRow,
    TranslationMeta, TranslationRow, BIBLE_INSERT_CHUNK,
};

fn meta(show: bool) -> TranslationMeta {
    TranslationMeta {
        code: "eng-dig".to_string(),
        name: "Dig".to_string(),
        language: "en".to_string(),
        show_in_dashboard: show,
        source: Some("test".to_string()),
    }
}

#[test]
fn fresh_import_takes_batch_pin_and_no_digest() {
    let row = plan_translation_row(None, &meta(true));
    assert_eq!(row.code, "eng-dig");
    assert!(row.show_in_dashboard);
    assert_eq!(row.source_digest, None);
    assert_eq!(row.source, Some("test".to_string()));
}

#[test]
fn reimport_keeps_digest_and_pin() {
    let first = plan_translation_row(None, &meta(true));
    let stamped = TranslationRow {
        source_digest: Some("keepme".to_string()),
        show_in_dashboard: false,
        ..first
    };
    let again = plan_translation_row(Some(&stamped), &meta(true));
    assert_eq!(again.source_digest, Some("keepme".to_string()));
    assert!(!again.show_in_dashboard);
    assert_eq!(again.name, "Dig");
}

#[test]
fn translation_edit_replaces_given_fields() {
    let row = plan_translation_row(None, &meta(true));
    let edited = apply_translation_edit(&row, Some("Dig 2"), None, Some(false));
    assert_eq!(edited.name, "Dig 2");
    assert_eq!(edited.language, "en");
    assert!(!edited.show_in_dashboard);
    let untouched = apply_translation_edit(&row, None, None, None);
    assert_eq!(untouched.name, "Dig");
    assert!(untouched.show_in_dashboard);
}

#[test]
fn book_key_prefers_reference_code() {
    assert_eq!(resolve_book_key(Some("JHN"), Some(43), None, "John"), ("JHN".to_string(), 43));
    assert_eq!(resolve_book_key(Some("JHN"), None, Some(("XXX", 1)), "John"), ("JHN".to_string(), 0));
    assert_eq!(resolve_book_key(None, Some(9), Some(("GEN", 1)), "Genesis"), ("GEN".to_string(), 1));
    assert_eq!(resolve_book_key(None, None, None, "Odes"), ("Odes".to_string(), 0));
}

#[test]
fn insert_chunks_cover_all_rows() {
    assert!(insert_chunk_sizes(0).is_empty());
    assert_eq!(insert_chunk_sizes(2), vec![2]);
    assert_eq!(insert_chunk_sizes(BIBLE_INSERT_CHUNK), vec![500]);
    assert_eq!(insert_chunk_sizes(1001), vec![500, 500, 1]);
    assert_eq!(insert_chunk_sizes(1500), vec![500, 500, 500]);
}

#[test]
fn chapter_summary_clamps_negatives() {
    let s = chapter_summary(&ChapterRow {
        book: "John".to_string(),
        book_code: "JHN".to_string(),
        book_number: -1,
        chapter: 3,
        verse_count: 36,
    });
    assert_eq!(s.book, "John");
    assert_eq!(s.book_code, Some("JHN".to_string()));
    assert_eq!(s.book_number, Some(0));
    assert_eq!(s.chapter, 3);
    assert_eq!(s.verse_count, 36);
}

#[test]
fn bible_slide_order_clamps_negative() {
    assert_eq!(bible_slide_order(-4), 0);
    assert_eq!(bible_slide_order(7), 7);
}

#[test]
fn replaced_slides_are_numbered_from_zero() {
    assert_eq!(slide_orders(0, 3), vec![0, 1, 2]);
    assert!(slide_orders(0, 0).is_empty());
}

#[test]
fn appended_slides_continue_after_existing_ones() {
    let first = append_start(2);
    assert_eq!(slide_orders(first, 2), vec![2, 3]);
}

#[test]
fn bible_presentation_counts_default_to_zero() {
    let ids = vec!["a".to_string(), "b".to_string()];
    let rows = vec![SlideCountRow { presentation_id: "b".to_string(), slide_count: 4 }];
    assert_eq!(slide_counts(&ids, &rows), vec![0, 4]);
}

#[test]
fn import_plan_clears_then_reindexes_the_translation() {
    let plan = plan_bible_import(1201);
    assert_eq!(plan.len(), 7);
    assert!(matches!(plan[0], ImportStep::ClearIndex));
    assert!(matches!(plan[1], ImportStep::DropIndexTriggers));
    assert!(matches!(plan[2], ImportStep::DeleteTranslation));
    assert!(matches!(plan[3], ImportStep::InsertTranslation));
    match &plan[4] {
        ImportStep::InsertPassages(sizes) => {
            assert_eq!(sizes, &vec![BIBLE_INSERT_CHUNK, BIBLE_INSERT_CHUNK, 201]);
        }
        other => panic!("unexpected step {other:?}"),
    }
    assert!(matches!(plan[5], ImportStep::IndexTranslation));
    assert!(matches!(plan[6], ImportStep::RestoreIndexTriggers));
    match &plan_bible_import(0)[4] {
        ImportStep::InsertPassages(sizes) => assert!(sizes.is_empty()),
        other => panic!("unexpected step {other:?}"),
    }
}
