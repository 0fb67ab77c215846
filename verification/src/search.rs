//! The presenter-wide search: which library, presentation and slide rows
//! become results, in which order, and what each result reports.
use crate::sync::{name_views, names_contain};
use crate::error::RepositoryError;
use crate::text::{chars_equal, chars_of, trim, trim_spec};
use crate::uuid_text::{parse_uuid, parsed_uuid};
use vstd::prelude::*;
use vstd::string::StringExecFns;

verus! {

/// Whether `needle` occurs in `hay` as a contiguous run.
pub open spec fn is_substring(needle: Seq<char>, hay: Seq<char>) -> bool {
    exists|i: int| 0 <= i && i + needle.len() <= hay.len() && #[trigger] hay.subrange(i, i + needle.len()) == needle
}

/// Whether every token occurs in `hay`.
pub open spec fn all_tokens_in(tokens: Seq<Seq<char>>, hay: Seq<char>) -> bool {
    forall|k: int| 0 <= k < tokens.len() ==> is_substring(#[trigger] tokens[k], hay)
}

/// How many tokens occur in `hay`.
pub open spec fn tokens_in_count(tokens: Seq<Seq<char>>, hay: Seq<char>) -> nat
    decreases tokens.len(),
{
    if tokens.len() == 0 {
        0
    } else {
        tokens_in_count(tokens.drop_last(), hay) + if is_substring(tokens.last(), hay) {
            1nat
        } else {
            0nat
        }
    }
}

/// Whether `needle` occurs in `hay`.
pub fn contains_text(hay: &Vec<char>, needle: &Vec<char>) -> (r: bool)
    ensures
        r == is_substring(needle@, hay@),
{
    if needle.len() > hay.len() {
        proof {
            assert forall|i: int| 0 <= i && i + needle@.len() <= hay@.len() implies #[trigger] hay@.subrange(
                i,
                i + needle@.len(),
            ) != needle@ by {}
        }
        return false;
    }
    let last = hay.len() - needle.len();
    let mut i: usize = 0;
    while i <= last
        invariant
            last == hay.len() - needle.len(),
            needle.len() <= hay.len(),
            i <= last + 1,
            forall|j: int| 0 <= j < i ==> #[trigger] hay@.subrange(j, j + needle@.len()) != needle@,
        decreases last + 1 - i,
    {
        let mut k: usize = 0;
        while k < needle.len() && hay[i + k] == needle[k]
            invariant
                i <= last,
                last == hay.len() - needle.len(),
                k <= needle.len(),
                forall|m: int| 0 <= m < k ==> hay@[i + m] == needle@[m],
            decreases needle.len() - k,
        {
            k = k + 1;
        }
        if k == needle.len() {
            assert(hay@.subrange(i as int, i + needle@.len()) =~= needle@);
            return true;
        }
        assert(hay@.subrange(i as int, i + needle@.len())[k as int] != needle@[k as int]);
        i = i + 1;
    }
    false
}

fn count_tokens_in(tokens: &Vec<Vec<char>>, hay: &Vec<char>) -> (n: usize)
    ensures
        n == tokens_in_count(token_views(tokens@), hay@),
        n <= tokens.len(),
{
    let mut n: usize = 0;
    let mut i: usize = 0;
    while i < tokens.len()
        invariant
            i <= tokens.len(),
            n <= i,
            n == tokens_in_count(token_views(tokens@).take(i as int), hay@),
        decreases tokens.len() - i,
    {
        assert(token_views(tokens@).take(i + 1).drop_last() == token_views(tokens@).take(i as int));
        if contains_text(hay, &tokens[i]) {
            n = n + 1;
        }
        i = i + 1;
    }
    assert(token_views(tokens@).take(tokens.len() as int) == token_views(tokens@));
    n
}

fn all_tokens(tokens: &Vec<Vec<char>>, hay: &Vec<char>) -> (r: bool)
    ensures
        r == all_tokens_in(token_views(tokens@), hay@),
{
    let mut i: usize = 0;
    while i < tokens.len()
        invariant
            i <= tokens.len(),
            forall|k: int| 0 <= k < i ==> is_substring(#[trigger] token_views(tokens@)[k], hay@),
        decreases tokens.len() - i,
    {
        if !contains_text(hay, &tokens[i]) {
            assert(token_views(tokens@)[i as int] == tokens@[i as int]@);
            return false;
        }
        i = i + 1;
    }
    true
}

/// The characters of each token.
pub open spec fn token_views(tokens: Seq<Vec<char>>) -> Seq<Seq<char>> {
    tokens.map_values(|t: Vec<char>| t@)
}

/// The kind of a search result.
#[derive(Debug, Clone, Copy, PartialEq, Eq, Structural)]
pub enum SearchResultKind {
    Library,
    Presentation,
}

/// Which text a search result matched.
#[derive(Debug, Clone, Copy, PartialEq, Eq, Structural)]
pub enum SearchMatchField {
    LibraryName,
    PresentationName,
    MainText,
    TranslationText,
    StageText,
}

/// One search result (ids are the stored id texts).
#[derive(Debug, Clone)]
pub struct SearchHit {
    pub kind: SearchResultKind,
    pub library_id: String,
    pub library_name: String,
    pub presentation_id: Option<String>,
    pub presentation_name: Option<String>,
    pub match_field: SearchMatchField,
}

/// A remembered library name.
#[derive(Debug, Clone)]
pub struct LibraryName {
    pub id: String,
    pub name: String,
}

/// The name remembered for library `id` (the last remembered wins).
pub open spec fn library_name_lookup(names: Seq<LibraryName>, id: Seq<char>) -> Option<Seq<char>>
    decreases names.len(),
{
    if names.len() == 0 {
        None
    } else if names.last().id@ == id {
        Some(names.last().name@)
    } else {
        library_name_lookup(names.drop_last(), id)
    }
}

/// The number of results a search returns at most: the requested limit
/// clamped into `1..=100`.
pub open spec fn result_cap(limit: u64) -> nat {
    if limit < 1 {
        1
    } else if limit > 100 {
        100
    } else {
        limit as nat
    }
}

/// The state of one presenter-wide search across its three phases
/// (libraries, presentations, slides).
pub struct SearchContext {
    pub tokens: Vec<Vec<char>>,
    pub has_tokens: bool,
    pub trimmed: Vec<char>,
    pub cap: usize,
    pub results: Vec<SearchHit>,
    pub library_names: Vec<LibraryName>,
    pub seen_library_ids: Vec<String>,
    pub seen_presentation_ids: Vec<String>,
    pub seen_slide_ids: Vec<String>,
    pub matched_library_ids: Vec<String>,
    pub matched_presentation_ids: Vec<String>,
}

/// The trimmed query a search runs on, or nothing when it is blank (a blank
/// query has no results).
pub fn search_query(query: &str) -> (r: Option<String>)
    ensures
        trim_spec(query@).len() == 0 ==> r is None,
        trim_spec(query@).len() > 0 ==> (r matches Some(t) && t@ == trim_spec(query@)),
{
    let t = trim(query);
    if t.as_str().unicode_len() == 0 {
        None
    } else {
        Some(t)
    }
}

impl SearchContext {
    /// The context's invariant.
    pub open spec fn wf(&self) -> bool {
        &&& 1 <= self.cap <= 100
        &&& self.has_tokens == (self.tokens.len() > 0)
        &&& self.results.len() <= self.cap
    }

    /// Starts a search for the trimmed query with its folded tokens.
    pub fn new(trimmed: &str, tokens: &Vec<String>, limit: u64) -> (ctx: Self)
        ensures
            ctx.wf(),
            ctx.cap == result_cap(limit),
            ctx.trimmed@ == trimmed@,
            token_views(ctx.tokens@) == name_views(tokens@),
            ctx.results@.len() == 0,
            ctx.library_names@.len() == 0,
            ctx.seen_library_ids@.len() == 0,
            ctx.seen_presentation_ids@.len() == 0,
            ctx.seen_slide_ids@.len() == 0,
            ctx.matched_library_ids@.len() == 0,
            ctx.matched_presentation_ids@.len() == 0,
    {
        let mut toks: Vec<Vec<char>> = Vec::new();
        let mut i: usize = 0;
        while i < tokens.len()
            invariant
                i <= tokens.len(),
                token_views(toks@) == name_views(tokens@.take(i as int)),
            decreases tokens.len() - i,
        {
            let ghost before = token_views(toks@);
            toks.push(chars_of(tokens[i].as_str()));
            assert(token_views(toks@) =~= before.push(tokens@[i as int]@));
            assert(name_views(tokens@.take(i + 1)) =~= name_views(tokens@.take(i as int)).push(
                tokens@[i as int]@,
            ));
            i = i + 1;
        }
        assert(tokens@.take(tokens.len() as int) == tokens@);
        let cap: usize = if limit < 1 {
            1
        } else if limit > 100 {
            100
        } else {
            limit as usize
        };
        let has_tokens = toks.len() > 0;
        SearchContext {
            tokens: toks,
            has_tokens,
            trimmed: chars_of(trimmed),
            cap,
            results: Vec::new(),
            library_names: Vec::new(),
            seen_library_ids: Vec::new(),
            seen_presentation_ids: Vec::new(),
            seen_slide_ids: Vec::new(),
            matched_library_ids: Vec::new(),
            matched_presentation_ids: Vec::new(),
        }
    }

    /// How many more results fit.
    pub fn remaining(&self) -> (n: usize)
        requires
            self.wf(),
        ensures
            n == self.cap - self.results.len(),
    {
        self.cap - self.results.len()
    }

    /// Whether no more result fits.
    pub fn is_full(&self) -> (b: bool)
        ensures
            b == (self.results.len() >= self.cap),
    {
        self.results.len() >= self.cap
    }
}

/// Adds `x` to the set `set` (a list without repeats); says whether it was
/// new.
fn insert_id(set: &mut Vec<String>, x: &str) -> (added: bool)
    ensures
        added == !name_views(old(set)@).contains(x@),
        added ==> name_views(final(set)@) == name_views(old(set)@).push(x@),
        !added ==> final(set)@ == old(set)@,
{
    let c = chars_of(x);
    if names_contain(set, &c) {
        return false;
    }
    let ghost before = name_views(set@);
    set.push(String::from_str(x));
    assert(name_views(set@) =~= before.push(x@));
    true
}

fn lookup_library_name(names: &Vec<LibraryName>, id: &Vec<char>) -> (r: Option<usize>)
    ensures
        r is None ==> library_name_lookup(names@, id@) is None,
        r is Some ==> r->0 < names.len() && library_name_lookup(names@, id@) == Some(
            names@[r->0 as int].name@,
        ),
{
    let mut r: Option<usize> = None;
    let mut i: usize = 0;
    while i < names.len()
        invariant
            i <= names.len(),
            r is None ==> library_name_lookup(names@.take(i as int), id@) is None,
            r is Some ==> r->0 < i && library_name_lookup(names@.take(i as int), id@) == Some(
                names@[r->0 as int].name@,
            ),
        decreases names.len() - i,
    {
        let k = chars_of(names[i].id.as_str());
        if chars_equal(&k, id) {
            r = Some(i);
        }
        i = i + 1;
        assert(names@.take(i as int).drop_last() == names@.take(i - 1));
    }
    assert(names@.take(names.len() as int) == names@);
    r
}

/// The result a library row becomes.
pub open spec fn library_hit_ok(h: SearchHit, id: Seq<char>, name: Seq<char>) -> bool {
    &&& h.kind == SearchResultKind::Library
    &&& h.library_id@ == id
    &&& h.library_name@ == name
    &&& h.presentation_id is None
    &&& h.presentation_name is None
    &&& h.match_field == SearchMatchField::LibraryName
}

/// The result a presentation row becomes.
pub open spec fn presentation_hit_ok(
    h: SearchHit,
    library_id: Seq<char>,
    library_name: Seq<char>,
    presentation_id: Seq<char>,
    presentation_name: Seq<char>,
    field: SearchMatchField,
) -> bool {
    &&& h.kind == SearchResultKind::Presentation
    &&& h.library_id@ == library_id
    &&& h.library_name@ == library_name
    &&& h.presentation_id matches Some(p) && p@ == presentation_id
    &&& h.presentation_name matches Some(n) && n@ == presentation_name
    &&& h.match_field == field
}

impl SearchContext {
    /// Library phase: offers one library row. A repeated library is ignored.
    /// A library whose folded name contains some token counts as matched (its
    /// presentations and slides then qualify too); it becomes a result only
    /// when its name contains every token (or there are no tokens).
    pub fn offer_library(&mut self, id: &str, name: &str, folded_name: &str) -> (r: Result<bool, RepositoryError>)
        requires
            old(self).wf(),
            !old(self).is_full_spec(),
        ensures
            final(self).wf(),
            final(self).tokens == old(self).tokens,
            final(self).trimmed == old(self).trimmed,
            final(self).cap == old(self).cap,
            final(self).seen_presentation_ids == old(self).seen_presentation_ids,
            final(self).seen_slide_ids == old(self).seen_slide_ids,
            final(self).matched_presentation_ids == old(self).matched_presentation_ids,
            final(self).has_tokens == old(self).has_tokens,
            name_views(old(self).seen_library_ids@).contains(id@) ==> {
                &&& r == Ok::<bool, RepositoryError>(false)
                &&& final(self).results == old(self).results
                &&& final(self).library_names == old(self).library_names
                &&& final(self).seen_library_ids@ == old(self).seen_library_ids@
                &&& final(self).matched_library_ids == old(self).matched_library_ids
            },
            !name_views(old(self).seen_library_ids@).contains(id@) ==> {
                let n = tokens_in_count(token_views(old(self).tokens@), folded_name@);
                &&& name_views(final(self).seen_library_ids@) == name_views(
                    old(self).seen_library_ids@,
                ).push(id@)
                &&& n > 0 ==> name_views(final(self).matched_library_ids@) == (if name_views(
                    old(self).matched_library_ids@,
                ).contains(id@) {
                    name_views(old(self).matched_library_ids@)
                } else {
                    name_views(old(self).matched_library_ids@).push(id@)
                })
                &&& n == 0 ==> final(self).matched_library_ids == old(self).matched_library_ids
                &&& (old(self).has_tokens && n < token_views(old(self).tokens@).len()) ==> r
                    == Ok::<bool, RepositoryError>(false)
                &&& (!old(self).has_tokens || n == token_views(old(self).tokens@).len()) ==> {
                    &&& parsed_uuid(id@) is Some ==> r == Ok::<bool, RepositoryError>(true)
                    &&& parsed_uuid(id@) is None ==> (r matches Err(RepositoryError::InvalidUuid(t))
                        && t@ == id@)
                }
                &&& r == Ok::<bool, RepositoryError>(true) ==> final(self).results@ == old(self).results@.push(final(self).results@.last())
                    && library_hit_ok(final(self).results@.last(), id@, name@)
                    && forall|x: Seq<char>|
                    #[trigger] library_name_lookup(final(self).library_names@, x) == if x == id@ {
                        Some(name@)
                    } else {
                        library_name_lookup(old(self).library_names@, x)
                    }
                &&& r != Ok::<bool, RepositoryError>(true) ==> final(self).results == old(self).results
                    && final(self).library_names == old(self).library_names
            },
    {
        if !insert_id(&mut self.seen_library_ids, id) {
            return Ok(false);
        }
        let folded = chars_of(folded_name);
        let n = if self.has_tokens {
            count_tokens_in(&self.tokens, &folded)
        } else {
            proof {
                assert(token_views(self.tokens@).len() == 0);
            }
            0
        };
        if n > 0 {
            insert_id(&mut self.matched_library_ids, id);
        }
        if self.has_tokens && n < self.tokens.len() {
            return Ok(false);
        }
        parse_uuid(id)?;
        let ghost names_before = self.library_names@;
        self.library_names.push(LibraryName { id: String::from_str(id), name: String::from_str(name) });
        assert(self.library_names@.drop_last() == names_before);
        self.results.push(
            SearchHit {
                kind: SearchResultKind::Library,
                library_id: String::from_str(id),
                library_name: String::from_str(name),
                presentation_id: None,
                presentation_name: None,
                match_field: SearchMatchField::LibraryName,
            },
        );
        Ok(true)
    }

    /// Whether no more result fits (spec form).
    pub open spec fn is_full_spec(&self) -> bool {
        self.results.len() >= self.cap
    }

    /// Records a presentation of a matched library: its slides qualify in the
    /// slide phase.
    pub fn note_matched_presentation(&mut self, presentation_id: &str)
        requires
            old(self).wf(),
        ensures
            final(self).wf(),
            name_views(final(self).matched_presentation_ids@) == (if name_views(
                old(self).matched_presentation_ids@,
            ).contains(presentation_id@) {
                name_views(old(self).matched_presentation_ids@)
            } else {
                name_views(old(self).matched_presentation_ids@).push(presentation_id@)
            }),
            final(self).tokens == old(self).tokens,
            final(self).cap == old(self).cap,
            final(self).results == old(self).results,
            final(self).library_names == old(self).library_names,
            final(self).seen_library_ids == old(self).seen_library_ids,
            final(self).seen_presentation_ids == old(self).seen_presentation_ids,
            final(self).seen_slide_ids == old(self).seen_slide_ids,
            final(self).matched_library_ids == old(self).matched_library_ids,
    {
        insert_id(&mut self.matched_presentation_ids, presentation_id);
    }

    /// Presentation phase: offers one presentation row with its library (if
    /// the library row exists). It is skipped without a library, when already
    /// seen, or when the folded `name + " " + library name` misses a token;
    /// otherwise it becomes a result matched by name.
    pub fn offer_presentation(
        &mut self,
        presentation_id: &str,
        presentation_name: &str,
        library: Option<&LibraryName>,
        folded_combined: &str,
    ) -> (r: Result<bool, RepositoryError>)
        requires
            old(self).wf(),
            !old(self).is_full_spec(),
        ensures
            final(self).wf(),
            final(self).tokens == old(self).tokens,
            final(self).cap == old(self).cap,
            final(self).seen_library_ids == old(self).seen_library_ids,
            final(self).seen_slide_ids == old(self).seen_slide_ids,
            final(self).matched_library_ids == old(self).matched_library_ids,
            final(self).matched_presentation_ids == old(self).matched_presentation_ids,
            r != Ok::<bool, RepositoryError>(true) ==> final(self).results == old(self).results && final(self).library_names
                == old(self).library_names,
            r == Ok::<bool, RepositoryError>(true) ==> forall|x: Seq<char>|
                #[trigger] library_name_lookup(final(self).library_names@, x) == if x
                    == library->0.id@ && library_name_lookup(
                    old(self).library_names@,
                    library->0.id@,
                ) is None {
                    Some(library->0.name@)
                } else {
                    library_name_lookup(old(self).library_names@, x)
                },
            final(self).trimmed == old(self).trimmed,
            final(self).has_tokens == old(self).has_tokens,
            library is None ==> {
                &&& r == Ok::<bool, RepositoryError>(false)
                &&& final(self).results == old(self).results
                &&& final(self).library_names == old(self).library_names
                &&& final(self).seen_presentation_ids == old(self).seen_presentation_ids
            },
            library is Some && name_views(old(self).seen_presentation_ids@).contains(presentation_id@)
                ==> {
                &&& r == Ok::<bool, RepositoryError>(false)
                &&& final(self).results == old(self).results
                &&& final(self).library_names == old(self).library_names
                &&& final(self).seen_presentation_ids@ == old(self).seen_presentation_ids@
            },
            library is Some && !name_views(old(self).seen_presentation_ids@).contains(presentation_id@)
                ==> {
                &&& name_views(final(self).seen_presentation_ids@) == name_views(
                    old(self).seen_presentation_ids@,
                ).push(presentation_id@)
                &&& !(!old(self).has_tokens || all_tokens_in(
                    token_views(old(self).tokens@),
                    folded_combined@,
                )) ==> r == Ok::<bool, RepositoryError>(false)
                &&& (!old(self).has_tokens || all_tokens_in(
                    token_views(old(self).tokens@),
                    folded_combined@,
                )) ==> {
                    &&& parsed_uuid(presentation_id@) is None ==> (r matches Err(
                        RepositoryError::InvalidUuid(t),
                    ) && t@ == presentation_id@)
                    &&& parsed_uuid(presentation_id@) is Some && parsed_uuid(library->0.id@) is None
                        ==> (r matches Err(RepositoryError::InvalidUuid(t)) && t@ == library->0.id@)
                    &&& parsed_uuid(presentation_id@) is Some && parsed_uuid(library->0.id@) is Some
                        ==> r == Ok::<bool, RepositoryError>(true)
                }
                &&& r == Ok::<bool, RepositoryError>(true) ==> final(self).results@ == old(self).results@.push(final(self).results@.last())
                    && presentation_hit_ok(
                    final(self).results@.last(),
                    library->0.id@,
                    library->0.name@,
                    presentation_id@,
                    presentation_name@,
                    SearchMatchField::PresentationName,
                )
                &&& r != Ok::<bool, RepositoryError>(true) ==> final(self).results == old(self).results
            },
    {
        let lib = match library {
            Some(l) => l,
            None => {
                return Ok(false);
            },
        };
        let library_id = lib.id.as_str();
        let library_name = lib.name.as_str();
        if !insert_id(&mut self.seen_presentation_ids, presentation_id) {
            return Ok(false);
        }
        if self.has_tokens {
            let folded = chars_of(folded_combined);
            if !all_tokens(&self.tokens, &folded) {
                return Ok(false);
            }
        }
        parse_uuid(presentation_id)?;
        parse_uuid(library_id)?;
        let lid = chars_of(library_id);
        if lookup_library_name(&self.library_names, &lid).is_none() {
            let ghost names_before = self.library_names@;
            self.library_names.push(
                LibraryName { id: String::from_str(library_id), name: String::from_str(library_name) },
            );
            assert(self.library_names@.drop_last() == names_before);
        }
        self.results.push(
            SearchHit {
                kind: SearchResultKind::Presentation,
                library_id: String::from_str(library_id),
                library_name: String::from_str(library_name),
                presentation_id: Some(String::from_str(presentation_id)),
                presentation_name: Some(String::from_str(presentation_name)),
                match_field: SearchMatchField::PresentationName,
            },
        );
        Ok(true)
    }

    /// Slide phase, first pass: accepts a slide row the first time it is seen.
    pub fn accept_slide(&mut self, slide_id: &str) -> (fresh: bool)
        requires
            old(self).wf(),
        ensures
            final(self).wf(),
            fresh == !name_views(old(self).seen_slide_ids@).contains(slide_id@),
            fresh ==> name_views(final(self).seen_slide_ids@) == name_views(
                old(self).seen_slide_ids@,
            ).push(slide_id@),
            !fresh ==> final(self).seen_slide_ids@ == old(self).seen_slide_ids@,
            final(self).tokens == old(self).tokens,
            final(self).cap == old(self).cap,
            final(self).results == old(self).results,
            final(self).library_names == old(self).library_names,
            final(self).seen_library_ids == old(self).seen_library_ids,
            final(self).seen_presentation_ids == old(self).seen_presentation_ids,
            final(self).matched_library_ids == old(self).matched_library_ids,
            final(self).matched_presentation_ids == old(self).matched_presentation_ids,
    {
        insert_id(&mut self.seen_slide_ids, slide_id)
    }

    /// Whether a name is remembered for library `id`.
    pub fn knows_library(&self, id: &str) -> (b: bool)
        ensures
            b == library_name_lookup(self.library_names@, id@) is Some,
    {
        let c = chars_of(id);
        lookup_library_name(&self.library_names, &c).is_some()
    }

    /// Remembers the name of a library fetched for the slide phase.
    pub fn remember_library_name(&mut self, id: &str, name: &str)
        requires
            old(self).wf(),
        ensures
            final(self).wf(),
            forall|x: Seq<char>|
                #[trigger] library_name_lookup(final(self).library_names@, x) == if x == id@ {
                    Some(name@)
                } else {
                    library_name_lookup(old(self).library_names@, x)
                },
            final(self).tokens == old(self).tokens,
            final(self).cap == old(self).cap,
            final(self).results == old(self).results,
            final(self).seen_library_ids == old(self).seen_library_ids,
            final(self).seen_presentation_ids == old(self).seen_presentation_ids,
            final(self).seen_slide_ids == old(self).seen_slide_ids,
            final(self).matched_library_ids == old(self).matched_library_ids,
            final(self).matched_presentation_ids == old(self).matched_presentation_ids,
    {
        let ghost names_before = self.library_names@;
        self.library_names.push(LibraryName { id: String::from_str(id), name: String::from_str(name) });
        assert(self.library_names@.drop_last() == names_before);
    }
}

impl SearchContext {
    /// The results of the search, at most its cap.
    pub fn finish(self) -> (r: Vec<SearchHit>)
        requires
            self.wf(),
        ensures
            r@ == self.results@,
            r.len() <= self.cap,
    {
        self.results
    }
}

/// A whole search returns at most the clamped limit: every context started
/// for `limit` has a cap of `limit` clamped into `1..=100`, and every step
/// keeps the results within the cap.
pub proof fn lemma_search_results_bounded(ctx: SearchContext, limit: u64)
    requires
        ctx.wf(),
        ctx.cap == result_cap(limit),
    ensures
        ctx.results.len() <= result_cap(limit),
        1 <= result_cap(limit) <= 100,
{
}

/// The slide text fields a slide result is judged on.
pub struct SlideTexts {
    pub main: String,
    pub main_search: String,
    pub translation: String,
    pub translation_search: String,
    pub stage: String,
    pub stage_search: String,
}

/// The field a slide hit reports: with tokens, the first of main, translation
/// and stage whose folded text holds every token (main when none does);
/// without tokens, the first whose raw text holds the trimmed query.
pub open spec fn slide_match_field(tokens: Seq<Seq<char>>, trimmed: Seq<char>, t: SlideTexts) -> SearchMatchField {
    if tokens.len() > 0 {
        if all_tokens_in(tokens, t.main_search@) {
            SearchMatchField::MainText
        } else if all_tokens_in(tokens, t.translation_search@) {
            SearchMatchField::TranslationText
        } else if all_tokens_in(tokens, t.stage_search@) {
            SearchMatchField::StageText
        } else {
            SearchMatchField::MainText
        }
    } else if trimmed.len() > 0 {
        if is_substring(trimmed, t.main@) {
            SearchMatchField::MainText
        } else if is_substring(trimmed, t.translation@) {
            SearchMatchField::TranslationText
        } else if is_substring(trimmed, t.stage@) {
            SearchMatchField::StageText
        } else {
            SearchMatchField::MainText
        }
    } else {
        SearchMatchField::MainText
    }
}

/// The field a slide hit reports goes by priority main, translation, stage:
/// with tokens, a slide whose folded main text holds every token reports
/// the main text whatever its other texts hold; it reports the translation
/// only when the main text misses a token and the translation holds them
/// all, and the stage only when both miss and the stage holds them all.
/// Without tokens the same priority holds for the raw texts holding the
/// trimmed query.
pub proof fn lemma_slide_match_field_priority(tokens: Seq<Seq<char>>, trimmed: Seq<char>, t: SlideTexts)
    ensures
        tokens.len() > 0 && all_tokens_in(tokens, t.main_search@) ==> slide_match_field(
            tokens,
            trimmed,
            t,
        ) == SearchMatchField::MainText,
        tokens.len() > 0 && slide_match_field(tokens, trimmed, t) == SearchMatchField::TranslationText
            ==> !all_tokens_in(tokens, t.main_search@) && all_tokens_in(tokens, t.translation_search@),
        tokens.len() > 0 && slide_match_field(tokens, trimmed, t) == SearchMatchField::StageText
            ==> !all_tokens_in(tokens, t.main_search@) && !all_tokens_in(tokens, t.translation_search@)
            && all_tokens_in(tokens, t.stage_search@),
        tokens.len() == 0 && trimmed.len() > 0 && is_substring(trimmed, t.main@) ==> slide_match_field(
            tokens,
            trimmed,
            t,
        ) == SearchMatchField::MainText,
        tokens.len() == 0 && slide_match_field(tokens, trimmed, t) == SearchMatchField::TranslationText
            ==> !is_substring(trimmed, t.main@) && is_substring(trimmed, t.translation@),
        tokens.len() == 0 && slide_match_field(tokens, trimmed, t) == SearchMatchField::StageText
            ==> !is_substring(trimmed, t.main@) && !is_substring(trimmed, t.translation@)
            && is_substring(trimmed, t.stage@),
{
}

/// What the second slide pass did with one pending slide.
#[derive(Debug, Clone, Copy, PartialEq, Eq, Structural)]
pub enum SlideVerdict {
    /// The result list is full: stop.
    Full,
    /// Not a result (a token is missing, or its presentation is already
    /// listed).
    Skipped,
    /// Became a presentation result.
    Added,
}

impl SearchContext {
    /// Slide phase, second pass: judges one pending slide of a presentation.
    /// `folded_combined` is the folded `library name, presentation name,
    /// main, translation, stage` text.
    pub fn admit_slide(
        &mut self,
        presentation_id: &str,
        presentation_name: &str,
        library_id: &str,
        texts: &SlideTexts,
        folded_combined: &str,
    ) -> (r: Result<SlideVerdict, RepositoryError>)
        requires
            old(self).wf(),
        ensures
            final(self).wf(),
            final(self).cap == old(self).cap,
            final(self).tokens == old(self).tokens,
            final(self).trimmed == old(self).trimmed,
            final(self).has_tokens == old(self).has_tokens,
            final(self).library_names == old(self).library_names,
            final(self).seen_library_ids == old(self).seen_library_ids,
            final(self).seen_slide_ids == old(self).seen_slide_ids,
            final(self).matched_library_ids == old(self).matched_library_ids,
            final(self).matched_presentation_ids == old(self).matched_presentation_ids,
            r == Ok::<SlideVerdict, RepositoryError>(SlideVerdict::Added) ==> name_views(
                final(self).seen_presentation_ids@,
            ) == name_views(old(self).seen_presentation_ids@).push(presentation_id@),
            r != Ok::<SlideVerdict, RepositoryError>(SlideVerdict::Added) ==> final(self).seen_presentation_ids@
                == old(self).seen_presentation_ids@,
            r == Ok::<SlideVerdict, RepositoryError>(SlideVerdict::Added) && old(self).has_tokens
                && all_tokens_in(token_views(old(self).tokens@), texts.main_search@) ==> final(self).results@.last().match_field
                == SearchMatchField::MainText,
            old(self).is_full_spec() ==> r == Ok::<SlideVerdict, RepositoryError>(SlideVerdict::Full)
                && final(self).results == old(self).results,
            !old(self).is_full_spec() && parsed_uuid(library_id@) is None ==> (r matches Err(
                RepositoryError::InvalidUuid(t),
            ) && t@ == library_id@),
            !old(self).is_full_spec() && parsed_uuid(library_id@) is Some && parsed_uuid(
                presentation_id@,
            ) is None ==> (r matches Err(RepositoryError::InvalidUuid(t)) && t@ == presentation_id@),
            r is Err ==> final(self).results == old(self).results,
            !old(self).is_full_spec() && parsed_uuid(library_id@) is Some && parsed_uuid(
                presentation_id@,
            ) is Some ==> {
                &&& (old(self).has_tokens && !all_tokens_in(
                    token_views(old(self).tokens@),
                    folded_combined@,
                )) ==> r == Ok::<SlideVerdict, RepositoryError>(SlideVerdict::Skipped)
                    && final(self).results == old(self).results
                &&& (!old(self).has_tokens || all_tokens_in(
                    token_views(old(self).tokens@),
                    folded_combined@,
                )) ==> {
                    &&& name_views(old(self).seen_presentation_ids@).contains(presentation_id@) ==> r
                        == Ok::<SlideVerdict, RepositoryError>(SlideVerdict::Skipped) && final(self).results == old(self).results
                    &&& !name_views(old(self).seen_presentation_ids@).contains(presentation_id@) ==> r
                        == Ok::<SlideVerdict, RepositoryError>(SlideVerdict::Added) && final(self).results@ == old(self).results@.push(final(self).results@.last())
                        && presentation_hit_ok(
                        final(self).results@.last(),
                        library_id@,
                        match library_name_lookup(old(self).library_names@, library_id@) {
                            Some(n) => n,
                            None => Seq::<char>::empty(),
                        },
                        presentation_id@,
                        presentation_name@,
                        slide_match_field(token_views(old(self).tokens@), old(self).trimmed@, *texts),
                    )
                }
            },
    {
        if self.is_full() {
            return Ok(SlideVerdict::Full);
        }
        parse_uuid(library_id)?;
        parse_uuid(presentation_id)?;
        let lid = chars_of(library_id);
        let library_name = match lookup_library_name(&self.library_names, &lid) {
            Some(i) => self.library_names[i].name.clone(),
            None => String::new(),
        };
        if self.has_tokens {
            let folded = chars_of(folded_combined);
            if !all_tokens(&self.tokens, &folded) {
                return Ok(SlideVerdict::Skipped);
            }
        }
        if !insert_id(&mut self.seen_presentation_ids, presentation_id) {
            return Ok(SlideVerdict::Skipped);
        }
        let field = self.slide_field(texts);
        self.results.push(
            SearchHit {
                kind: SearchResultKind::Presentation,
                library_id: String::from_str(library_id),
                library_name,
                presentation_id: Some(String::from_str(presentation_id)),
                presentation_name: Some(String::from_str(presentation_name)),
                match_field: field,
            },
        );
        Ok(SlideVerdict::Added)
    }

    fn slide_field(&self, texts: &SlideTexts) -> (f: SearchMatchField)
        requires
            self.wf(),
        ensures
            f == slide_match_field(token_views(self.tokens@), self.trimmed@, *texts),
            self.has_tokens && all_tokens_in(token_views(self.tokens@), texts.main_search@) ==> f
                == SearchMatchField::MainText,
            self.has_tokens && f == SearchMatchField::TranslationText ==> !all_tokens_in(
                token_views(self.tokens@),
                texts.main_search@,
            ) && all_tokens_in(token_views(self.tokens@), texts.translation_search@),
            self.has_tokens && f == SearchMatchField::StageText ==> !all_tokens_in(
                token_views(self.tokens@),
                texts.main_search@,
            ) && !all_tokens_in(token_views(self.tokens@), texts.translation_search@)
                && all_tokens_in(token_views(self.tokens@), texts.stage_search@),
    {
        if self.has_tokens {
            let ms = chars_of(texts.main_search.as_str());
            if all_tokens(&self.tokens, &ms) {
                return SearchMatchField::MainText;
            }
            let ts = chars_of(texts.translation_search.as_str());
            if all_tokens(&self.tokens, &ts) {
                return SearchMatchField::TranslationText;
            }
            let ss = chars_of(texts.stage_search.as_str());
            if all_tokens(&self.tokens, &ss) {
                return SearchMatchField::StageText;
            }
            SearchMatchField::MainText
        } else if self.trimmed.len() > 0 {
            let m = chars_of(texts.main.as_str());
            if contains_text(&m, &self.trimmed) {
                return SearchMatchField::MainText;
            }
            let t = chars_of(texts.translation.as_str());
            if contains_text(&t, &self.trimmed) {
                return SearchMatchField::TranslationText;
            }
            let s = chars_of(texts.stage.as_str());
            if contains_text(&s, &self.trimmed) {
                return SearchMatchField::StageText;
            }
            SearchMatchField::MainText
        } else {
            SearchMatchField::MainText
        }
    }
}

/// The reads of one presenter-wide search, in the order they run.
#[derive(Debug, Clone, Copy, PartialEq, Eq, Structural)]
pub enum SearchPhase {
    /// Library rows, offered to [`SearchContext::offer_library`].
    Libraries,
    /// The live presentations of the matched libraries, noted with
    /// [`SearchContext::note_matched_presentation`].
    MatchedPresentations,
    /// Presentation rows, offered to [`SearchContext::offer_presentation`].
    Presentations,
    /// Slide rows, through [`SearchContext::accept_slide`] and
    /// [`SearchContext::admit_slide`].
    Slides,
    /// No more reads: the results are final.
    Done,
}

/// The read that follows `after`: a full result list ends the search after
/// the library or the presentation phase; the presentations of matched
/// libraries are read only when some library matched; the slide phase is the
/// last.
pub open spec fn next_phase_spec(after: SearchPhase, full: bool, any_matched_library: bool) -> SearchPhase {
    match after {
        SearchPhase::Libraries => if full {
            SearchPhase::Done
        } else if any_matched_library {
            SearchPhase::MatchedPresentations
        } else {
            SearchPhase::Presentations
        },
        SearchPhase::MatchedPresentations => SearchPhase::Presentations,
        SearchPhase::Presentations => if full {
            SearchPhase::Done
        } else {
            SearchPhase::Slides
        },
        SearchPhase::Slides => SearchPhase::Done,
        SearchPhase::Done => SearchPhase::Done,
    }
}

/// How many reads at most remain from a phase.
pub open spec fn phase_rank(p: SearchPhase) -> nat {
    match p {
        SearchPhase::Libraries => 4,
        SearchPhase::MatchedPresentations => 3,
        SearchPhase::Presentations => 2,
        SearchPhase::Slides => 1,
        SearchPhase::Done => 0,
    }
}

impl SearchContext {
    /// The read to run once the reads of `after` are done, judged on this
    /// context's results and matched libraries.
    pub fn next_phase(&self, after: SearchPhase) -> (p: SearchPhase)
        ensures
            p == next_phase_spec(after, self.is_full_spec(), self.matched_library_ids@.len() > 0),
    {
        match after {
            SearchPhase::Libraries => if self.is_full() {
                SearchPhase::Done
            } else if self.matched_library_ids.len() > 0 {
                SearchPhase::MatchedPresentations
            } else {
                SearchPhase::Presentations
            },
            SearchPhase::MatchedPresentations => SearchPhase::Presentations,
            SearchPhase::Presentations => if self.is_full() {
                SearchPhase::Done
            } else {
                SearchPhase::Slides
            },
            SearchPhase::Slides => SearchPhase::Done,
            SearchPhase::Done => SearchPhase::Done,
        }
    }
}

/// Every read of a search brings it closer to its end: a search started at
/// the library phase runs at most four reads, whatever their rows were.
pub proof fn lemma_search_phases_end(after: SearchPhase, full: bool, any_matched_library: bool)
    ensures
        after != SearchPhase::Done ==> phase_rank(next_phase_spec(after, full, any_matched_library))
            < phase_rank(after),
        next_phase_spec(after, full, any_matched_library) == SearchPhase::Done <==> phase_rank(
            next_phase_spec(after, full, any_matched_library),
        ) == 0,
        phase_rank(SearchPhase::Libraries) == 4,
{
}

} // verus!
