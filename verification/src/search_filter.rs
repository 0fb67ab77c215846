//! The row filters of the three search phases, as the database is asked to
//! apply them: which columns are tested against which `LIKE '%text%'`
//! patterns, how the tests combine, and which trashed rows are left out.
use crate::text::chars_of;
use vstd::prelude::*;

verus! {

/// A text column a search phase tests.
#[derive(Debug, Clone, Copy, PartialEq, Eq, Structural)]
pub enum SearchColumn {
    LibraryName,
    LibrarySearchName,
    PresentationName,
    PresentationSearchName,
    SlideMain,
    SlideTranslate,
    SlideStage,
    SlideMainSearch,
    SlideTranslateSearch,
    SlideStageSearch,
}

/// One `column LIKE pattern` test.
#[derive(Debug, Clone)]
pub struct LikeTest {
    pub column: SearchColumn,
    pub pattern: String,
}

/// The filter of one search phase. A row is selected when it is live (and,
/// with `parent_live_only`, so is the row it belongs to) and at least one of
/// these holds:
/// - some test of `any_of` holds;
/// - `all_groups` is non-empty and each of its groups has a test that holds;
/// - its parent's id is one of `parent_in`.
#[derive(Debug, Clone)]
pub struct PhaseFilter {
    pub any_of: Vec<LikeTest>,
    pub all_groups: Vec<Vec<LikeTest>>,
    pub parent_in: Vec<String>,
    pub live_only: bool,
    pub parent_live_only: bool,
}

/// The pattern that matches `text` anywhere in a column.
pub open spec fn contains_pattern(text: Seq<char>) -> Seq<char> {
    "%"@ + text + "%"@
}

/// A test by its column and pattern text.
pub open spec fn test_view(t: LikeTest) -> (SearchColumn, Seq<char>) {
    (t.column, t.pattern@)
}

/// The tests by column and pattern text.
pub open spec fn tests_view(ts: Seq<LikeTest>) -> Seq<(SearchColumn, Seq<char>)> {
    ts.map_values(|t: LikeTest| test_view(t))
}

/// The groups by column and pattern text.
pub open spec fn groups_view(gs: Seq<Vec<LikeTest>>) -> Seq<Seq<(SearchColumn, Seq<char>)>> {
    gs.map_values(|g: Vec<LikeTest>| tests_view(g@))
}

/// The texts of a list of strings.
pub open spec fn texts_view(ss: Seq<String>) -> Seq<Seq<char>> {
    ss.map_values(|s: String| s@)
}

/// The "text anywhere in `column`" test of each token, in order.
pub open spec fn token_tests(column: SearchColumn, tokens: Seq<Seq<char>>) -> Seq<
    (SearchColumn, Seq<char>),
> {
    tokens.map_values(|t: Seq<char>| (column, contains_pattern(t)))
}

/// The test of the trimmed query on `column`, when it is not empty.
pub open spec fn literal_tests(columns: Seq<SearchColumn>, trimmed: Seq<char>) -> Seq<
    (SearchColumn, Seq<char>),
> {
    if trimmed.len() == 0 {
        Seq::empty()
    } else {
        columns.map_values(|c: SearchColumn| (c, contains_pattern(trimmed)))
    }
}

fn like(column: SearchColumn, text: &str) -> (t: LikeTest)
    ensures
        test_view(t) == (column, contains_pattern(text@)),
{
    let mut v = chars_of("%");
    let body = chars_of(text);
    crate::text::extend_chars(&mut v, &body);
    let tail = chars_of("%");
    crate::text::extend_chars(&mut v, &tail);
    LikeTest { column, pattern: crate::text::string_from_chars(&v) }
}

fn push_literal(out: &mut Vec<LikeTest>, columns: &Vec<SearchColumn>, trimmed: &str)
    ensures
        tests_view(final(out)@) == tests_view(old(out)@) + literal_tests(columns@, trimmed@),
{
    let ghost start = tests_view(out@);
    if trimmed.unicode_len() == 0 {
        assert(tests_view(out@) =~= start + literal_tests(columns@, trimmed@));
        return;
    }
    let mut i: usize = 0;
    while i < columns.len()
        invariant
            i <= columns.len(),
            trimmed@.len() > 0,
            tests_view(out@) == start + columns@.take(i as int).map_values(
                |c: SearchColumn| (c, contains_pattern(trimmed@)),
            ),
        decreases columns.len() - i,
    {
        let ghost before = out@;
        out.push(like(columns[i], trimmed));
        assert(tests_view(out@) =~= tests_view(before).push(test_view(out@.last())));
        assert(columns@.take(i + 1).map_values(|c: SearchColumn| (c, contains_pattern(trimmed@)))
            =~= columns@.take(i as int).map_values(|c: SearchColumn| (c, contains_pattern(trimmed@))).push(
            (columns@[i as int], contains_pattern(trimmed@)),
        ));
        i = i + 1;
    }
    assert(columns@.take(columns.len() as int) == columns@);
}

fn token_likes(column: SearchColumn, tokens: &Vec<String>) -> (r: Vec<LikeTest>)
    ensures
        tests_view(r@) == token_tests(column, texts_view(tokens@)),
{
    let mut r: Vec<LikeTest> = Vec::new();
    let mut i: usize = 0;
    while i < tokens.len()
        invariant
            i <= tokens.len(),
            tests_view(r@) == token_tests(column, texts_view(tokens@.take(i as int))),
        decreases tokens.len() - i,
    {
        let ghost before = r@;
        r.push(like(column, tokens[i].as_str()));
        assert(tests_view(r@) =~= tests_view(before).push(test_view(r@.last())));
        assert(texts_view(tokens@.take(i + 1)) =~= texts_view(tokens@.take(i as int)).push(
            tokens@[i as int]@,
        ));
        assert(token_tests(column, texts_view(tokens@.take(i + 1))) =~= token_tests(
            column,
            texts_view(tokens@.take(i as int)),
        ).push((column, contains_pattern(tokens@[i as int]@))));
        i = i + 1;
    }
    assert(tokens@.take(tokens.len() as int) == tokens@);
    r
}

fn copy_ids(ids: &Vec<String>) -> (r: Vec<String>)
    ensures
        texts_view(r@) == texts_view(ids@),
{
    let mut r: Vec<String> = Vec::new();
    let mut i: usize = 0;
    while i < ids.len()
        invariant
            i <= ids.len(),
            texts_view(r@) == texts_view(ids@.take(i as int)),
        decreases ids.len() - i,
    {
        r.push(ids[i].clone());
        assert(texts_view(ids@.take(i + 1)) =~= texts_view(ids@.take(i as int)).push(ids@[i as int]@));
        assert(texts_view(r@) =~= texts_view(ids@.take(i + 1)));
        i = i + 1;
    }
    assert(ids@.take(ids.len() as int) == ids@);
    r
}

/// The library phase: a live library whose name holds the trimmed query,
/// or whose folded name holds any one token.
pub fn library_filter(trimmed: &str, tokens: &Vec<String>) -> (f: PhaseFilter)
    ensures
        tests_view(f.any_of@) == literal_tests(seq![SearchColumn::LibraryName], trimmed@)
            + token_tests(SearchColumn::LibrarySearchName, texts_view(tokens@)),
        f.all_groups@.len() == 0,
        f.parent_in@.len() == 0,
        f.live_only,
        !f.parent_live_only,
{
    let mut any_of: Vec<LikeTest> = Vec::new();
    let columns = vec![SearchColumn::LibraryName];
    assert(columns@ =~= seq![SearchColumn::LibraryName]);
    push_literal(&mut any_of, &columns, trimmed);
    let ghost head = tests_view(any_of@);
    let mut toks = token_likes(SearchColumn::LibrarySearchName, tokens);
    let ghost tail = tests_view(toks@);
    any_of.append(&mut toks);
    assert(tests_view(any_of@) =~= head + tail);
    PhaseFilter {
        any_of,
        all_groups: Vec::new(),
        parent_in: Vec::new(),
        live_only: true,
        parent_live_only: false,
    }
}

/// The presentation phase: a live presentation of a live library whose
/// name holds the trimmed query, or whose folded name holds every token, or
/// that belongs to a library matched in the library phase.
pub fn presentation_filter(trimmed: &str, tokens: &Vec<String>, matched_library_ids: &Vec<String>) -> (f:
    PhaseFilter)
    ensures
        tests_view(f.any_of@) == literal_tests(seq![SearchColumn::PresentationName], trimmed@),
        groups_view(f.all_groups@) == token_tests(
            SearchColumn::PresentationSearchName,
            texts_view(tokens@),
        ).map_values(|t: (SearchColumn, Seq<char>)| seq![t]),
        texts_view(f.parent_in@) == texts_view(matched_library_ids@),
        f.live_only,
        f.parent_live_only,
{
    let mut any_of: Vec<LikeTest> = Vec::new();
    let columns = vec![SearchColumn::PresentationName];
    assert(columns@ =~= seq![SearchColumn::PresentationName]);
    push_literal(&mut any_of, &columns, trimmed);
    assert(tests_view(any_of@) =~= literal_tests(seq![SearchColumn::PresentationName], trimmed@));
    let toks = token_likes(SearchColumn::PresentationSearchName, tokens);
    let mut groups: Vec<Vec<LikeTest>> = Vec::new();
    let mut i: usize = 0;
    while i < toks.len()
        invariant
            i <= toks.len(),
            groups_view(groups@) == tests_view(toks@).take(i as int).map_values(
                |t: (SearchColumn, Seq<char>)| seq![t],
            ),
        decreases toks.len() - i,
    {
        let ghost before = groups@;
        let t = LikeTest { column: toks[i].column, pattern: toks[i].pattern.clone() };
        let g = vec![t];
        assert(tests_view(g@) =~= seq![test_view(toks@[i as int])]);
        groups.push(g);
        assert(groups_view(groups@) =~= groups_view(before).push(tests_view(g@)));
        assert(tests_view(toks@).take(i + 1) =~= tests_view(toks@).take(i as int).push(
            test_view(toks@[i as int]),
        ));
        assert(tests_view(toks@).take(i + 1).map_values(|t: (SearchColumn, Seq<char>)| seq![t])
            =~= tests_view(toks@).take(i as int).map_values(|t: (SearchColumn, Seq<char>)| seq![t]).push(
            seq![test_view(toks@[i as int])],
        ));
        i = i + 1;
    }
    assert(tests_view(toks@).take(toks.len() as int) == tests_view(toks@));
    PhaseFilter {
        any_of,
        all_groups: groups,
        parent_in: copy_ids(matched_library_ids),
        live_only: true,
        parent_live_only: true,
    }
}

/// The slide phase: a slide of a live presentation in a live library whose
/// main, translation or stage text holds the trimmed query, or where every
/// token is in one of its folded texts, or that belongs to a presentation
/// of a matched library.
pub fn slide_filter(trimmed: &str, tokens: &Vec<String>, matched_presentation_ids: &Vec<String>) -> (f:
    PhaseFilter)
    ensures
        tests_view(f.any_of@) == literal_tests(
            seq![SearchColumn::SlideMain, SearchColumn::SlideTranslate, SearchColumn::SlideStage],
            trimmed@,
        ),
        groups_view(f.all_groups@) == texts_view(tokens@).map_values(
            |t: Seq<char>|
                seq![
                    (SearchColumn::SlideMainSearch, contains_pattern(t)),
                    (SearchColumn::SlideTranslateSearch, contains_pattern(t)),
                    (SearchColumn::SlideStageSearch, contains_pattern(t)),
                ],
        ),
        texts_view(f.parent_in@) == texts_view(matched_presentation_ids@),
        f.live_only,
        f.parent_live_only,
{
    let mut any_of: Vec<LikeTest> = Vec::new();
    let columns = vec![SearchColumn::SlideMain, SearchColumn::SlideTranslate, SearchColumn::SlideStage];
    assert(columns@ =~= seq![SearchColumn::SlideMain, SearchColumn::SlideTranslate, SearchColumn::SlideStage]);
    push_literal(&mut any_of, &columns, trimmed);
    assert(tests_view(any_of@) =~= literal_tests(
        seq![SearchColumn::SlideMain, SearchColumn::SlideTranslate, SearchColumn::SlideStage],
        trimmed@,
    ));
    let ghost spec_groups = texts_view(tokens@).map_values(
        |t: Seq<char>|
            seq![
                (SearchColumn::SlideMainSearch, contains_pattern(t)),
                (SearchColumn::SlideTranslateSearch, contains_pattern(t)),
                (SearchColumn::SlideStageSearch, contains_pattern(t)),
            ],
    );
    let mut groups: Vec<Vec<LikeTest>> = Vec::new();
    let mut i: usize = 0;
    while i < tokens.len()
        invariant
            i <= tokens.len(),
            spec_groups == texts_view(tokens@).map_values(
                |t: Seq<char>|
                    seq![
                        (SearchColumn::SlideMainSearch, contains_pattern(t)),
                        (SearchColumn::SlideTranslateSearch, contains_pattern(t)),
                        (SearchColumn::SlideStageSearch, contains_pattern(t)),
                    ],
            ),
            groups_view(groups@) == spec_groups.take(i as int),
        decreases tokens.len() - i,
    {
        let ghost before = groups@;
        let t = tokens[i].as_str();
        let g = vec![
            like(SearchColumn::SlideMainSearch, t),
            like(SearchColumn::SlideTranslateSearch, t),
            like(SearchColumn::SlideStageSearch, t),
        ];
        assert(tests_view(g@) =~= spec_groups[i as int]);
        groups.push(g);
        assert(groups_view(groups@) =~= groups_view(before).push(tests_view(g@)));
        assert(spec_groups.take(i + 1) =~= spec_groups.take(i as int).push(spec_groups[i as int]));
        i = i + 1;
    }
    assert(spec_groups.take(tokens.len() as int) == spec_groups);
    PhaseFilter {
        any_of,
        all_groups: groups,
        parent_in: copy_ids(matched_presentation_ids),
        live_only: true,
        parent_live_only: true,
    }
}

/// Whether a phase keeps a row by its trash markers: with `live_only` the
/// row (for slides: their presentation) must not be trashed, and with
/// `parent_live_only` neither may the row it belongs to.
pub fn keeps_row(f: &PhaseFilter, deleted: bool, parent_deleted: bool) -> (b: bool)
    ensures
        b == ((!f.live_only || !deleted) && (!f.parent_live_only || !parent_deleted)),
{
    (!f.live_only || !deleted) && (!f.parent_live_only || !parent_deleted)
}

} // verus!