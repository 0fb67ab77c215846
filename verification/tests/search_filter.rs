use presenter_persistence::search_filter::{
    library_filter, presentation_filter, slide_filter, LikeTest, SearchColumn,
};

fn view(ts: &[LikeTest]) -> Vec<(SearchColumn, String)> {
    ts.iter().map(|t| (t.column, t.pattern.clone())).collect()
}

fn toks(v: &[&str]) -> Vec<String> {
    v.iter().map(|s| s.to_string()).collect()
}

#[test]
fn libraries_match_the_query_or_any_token_and_skip_trash() {
    let f = library_filter("Tymy Worship", &toks(&["tymy", "worship"]));
    assert_eq!(
        view(&f.any_of),
        vec![
            (SearchColumn::LibraryName, "%Tymy Worship%".to_string()),
            (SearchColumn::LibrarySearchName, "%tymy%".to_string()),
            (SearchColumn::LibrarySearchName, "%worship%".to_string()),
        ]
    );
    assert!(f.all_groups.is_empty());
    assert!(f.live_only);
}

#[test]
fn presentations_need_every_token() {
    let f = presentation_filter("a b", &toks(&["a", "b"]), &toks(&["lib-1"]));
    assert_eq!(view(&f.any_of), vec![(SearchColumn::PresentationName, "%a b%".to_string())]);
    let groups: Vec<Vec<(SearchColumn, String)>> = f.all_groups.iter().map(|g| view(g)).collect();
    assert_eq!(
        groups,
        vec![
            vec![(SearchColumn::PresentationSearchName, "%a%".to_string())],
            vec![(SearchColumn::PresentationSearchName, "%b%".to_string())],
        ]
    );
    assert_eq!(f.parent_in, toks(&["lib-1"]));
    assert!(f.live_only && f.parent_live_only);
}

#[test]
fn slides_need_each_token_in_some_field() {
    let f = slide_filter("x", &toks(&["x"]), &vec![]);
    assert_eq!(f.any_of.len(), 3);
    assert_eq!(
        view(&f.all_groups[0]),
        vec![
            (SearchColumn::SlideMainSearch, "%x%".to_string()),
            (SearchColumn::SlideTranslateSearch, "%x%".to_string()),
            (SearchColumn::SlideStageSearch, "%x%".to_string()),
        ]
    );
    assert!(f.parent_in.is_empty());
    assert!(f.live_only && f.parent_live_only);
}
