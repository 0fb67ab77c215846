//! Bible translations and Bible presentations: the translation row an
//! import writes, the book key of each passage, the insert batches, and the
//! numbering and counting of Bible slides.
use vstd::prelude::*;
use vstd::string::StringExecFns;

verus! {

/// How many passage rows go into one insert statement.
pub const BIBLE_INSERT_CHUNK: usize = 500;

/// A translation as an import batch describes it.
#[derive(Debug, Clone)]
pub struct TranslationMeta {
    pub code: String,
    pub name: String,
    pub language: String,
    pub show_in_dashboard: bool,
    pub source: Option<String>,
}

/// A stored translation row.
#[derive(Debug, Clone)]
pub struct TranslationRow {
    pub code: String,
    pub name: String,
    pub language: String,
    pub show_in_dashboard: bool,
    pub source: Option<String>,
    pub source_digest: Option<String>,
}

fn copy_opt(s: &Option<String>) -> (r: Option<String>)
    ensures
        r == *s,
{
    match s {
        Some(t) => Some(t.clone()),
        None => None,
    }
}

/// The row that an import writes for `incoming`: the batch's name, language
/// and source, but the dashboard pin and the source digest of the row it
/// replaces, where there is one (a fresh translation takes the batch's pin
/// and no digest).
pub fn plan_translation_row(existing: Option<&TranslationRow>, incoming: &TranslationMeta) -> (row:
    TranslationRow)
    ensures
        row.code@ == incoming.code@,
        row.name@ == incoming.name@,
        row.language@ == incoming.language@,
        row.source == incoming.source,
        row.show_in_dashboard == (match existing {
            Some(e) => e.show_in_dashboard,
            None => incoming.show_in_dashboard,
        }),
        row.source_digest == (match existing {
            Some(e) => e.source_digest,
            None => None,
        }),
{
    let (show, digest) = match existing {
        Some(e) => (e.show_in_dashboard, copy_opt(&e.source_digest)),
        None => (incoming.show_in_dashboard, None),
    };
    TranslationRow {
        code: incoming.code.clone(),
        name: incoming.name.clone(),
        language: incoming.language.clone(),
        show_in_dashboard: show,
        source: copy_opt(&incoming.source),
        source_digest: digest,
    }
}

/// The row written by an import, as a function of the row it replaces.
pub open spec fn imported_row(existing: Option<TranslationRow>, incoming: TranslationMeta) -> (
    Seq<char>,
    Seq<char>,
    Seq<char>,
    bool,
    Option<String>,
    Option<String>,
) {
    (
        incoming.code@,
        incoming.name@,
        incoming.language@,
        match existing {
            Some(e) => e.show_in_dashboard,
            None => incoming.show_in_dashboard,
        },
        incoming.source,
        match existing {
            Some(e) => e.source_digest,
            None => None,
        },
    )
}

/// The content of a stored row, in the shape of `imported_row`.
pub open spec fn row_content(row: TranslationRow) -> (
    Seq<char>,
    Seq<char>,
    Seq<char>,
    bool,
    Option<String>,
    Option<String>,
) {
    (row.code@, row.name@, row.language@, row.show_in_dashboard, row.source, row.source_digest)
}

/// Importing the same batch again leaves the translation row as the first
/// import wrote it: the pin and the digest carry over, the rest is the
/// batch's own.
pub proof fn lemma_reimport_is_stable(
    existing: Option<TranslationRow>,
    incoming: TranslationMeta,
    first: TranslationRow,
)
    requires
        row_content(first) == imported_row(existing, incoming),
    ensures
        imported_row(Some(first), incoming) == row_content(first),
{
}

/// A digest stamped on a translation survives every later import of it.
pub proof fn lemma_import_keeps_digest(existing: TranslationRow, incoming: TranslationMeta)
    ensures
        imported_row(Some(existing), incoming).5 == existing.source_digest,
        imported_row(Some(existing), incoming).3 == existing.show_in_dashboard,
{
}

/// The row after an edit of a stored translation: each given field
/// replaces the stored one, the rest is kept.
pub fn apply_translation_edit(
    row: &TranslationRow,
    name: Option<&str>,
    language: Option<&str>,
    show_in_dashboard: Option<bool>,
) -> (r: TranslationRow)
    ensures
        r.code@ == row.code@,
        r.name@ == (match name {
            Some(n) => n@,
            None => row.name@,
        }),
        r.language@ == (match language {
            Some(l) => l@,
            None => row.language@,
        }),
        r.show_in_dashboard == (match show_in_dashboard {
            Some(s) => s,
            None => row.show_in_dashboard,
        }),
        r.source == row.source,
        r.source_digest == row.source_digest,
{
    TranslationRow {
        code: row.code.clone(),
        name: match name {
            Some(n) => String::from_str(n),
            None => row.name.clone(),
        },
        language: match language {
            Some(l) => String::from_str(l),
            None => row.language.clone(),
        },
        show_in_dashboard: match show_in_dashboard {
            Some(s) => s,
            None => row.show_in_dashboard,
        },
        source: copy_opt(&row.source),
        source_digest: copy_opt(&row.source_digest),
    }
}

/// The book key stored with a passage: the reference's own code and number
/// (number 0 when it has none); else the canonical book found by name; else
/// the book's name with number 0.
pub open spec fn book_key(
    book_code: Option<Seq<char>>,
    book_number: Option<u16>,
    canonical: Option<(Seq<char>, u16)>,
    book: Seq<char>,
) -> (Seq<char>, int) {
    match book_code {
        Some(c) => (
            c,
            match book_number {
                Some(n) => n as int,
                None => 0,
            },
        ),
        None => match canonical {
            Some((c, n)) => (c, n as int),
            None => (book, 0),
        },
    }
}

/// The book key of one passage; `canonical` is the canonical book that the
/// passage's book name resolves to, where it resolves.
pub fn resolve_book_key(
    book_code: Option<&str>,
    book_number: Option<u16>,
    canonical: Option<(&str, u16)>,
    book: &str,
) -> (r: (String, i32))
    ensures
        (r.0@, r.1 as int) == book_key(
            match book_code {
                Some(c) => Some(c@),
                None => None,
            },
            book_number,
            match canonical {
                Some((c, n)) => Some((c@, n)),
                None => None,
            },
            book@,
        ),
{
    match book_code {
        Some(c) => (
            String::from_str(c),
            match book_number {
                Some(n) => n as i32,
                None => 0,
            },
        ),
        None => match canonical {
            Some((c, n)) => (String::from_str(c), n as i32),
            None => (String::from_str(book), 0),
        },
    }
}

/// The sizes of the insert statements for `n` rows: full batches, then what
/// is left over, if anything.
pub open spec fn chunk_sizes(n: nat) -> Seq<nat>
    decreases n,
{
    if n == 0 {
        Seq::empty()
    } else if n <= BIBLE_INSERT_CHUNK {
        seq![n]
    } else {
        seq![BIBLE_INSERT_CHUNK as nat] + chunk_sizes((n - BIBLE_INSERT_CHUNK) as nat)
    }
}

/// The sum of a sequence of sizes.
pub open spec fn total(s: Seq<nat>) -> nat
    decreases s.len(),
{
    if s.len() == 0 {
        0
    } else {
        s[0] + total(s.drop_first())
    }
}

/// The batches cover every row, none is empty and none is over the limit.
pub proof fn lemma_chunks_cover(n: nat)
    ensures
        total(chunk_sizes(n)) == n,
        forall|i: int|
            0 <= i < chunk_sizes(n).len() ==> 1 <= #[trigger] chunk_sizes(n)[i]
                <= BIBLE_INSERT_CHUNK,
    decreases n,
{
    if n > BIBLE_INSERT_CHUNK {
        let rest = (n - BIBLE_INSERT_CHUNK) as nat;
        lemma_chunks_cover(rest);
        let s = chunk_sizes(n);
        assert(s.drop_first() =~= chunk_sizes(rest));
        assert forall|i: int| 0 <= i < s.len() implies 1 <= #[trigger] s[i]
            <= BIBLE_INSERT_CHUNK by {
            if i > 0 {
                assert(s[i] == chunk_sizes(rest)[i - 1]);
            }
        }
    } else if n > 0 {
        assert(chunk_sizes(n).drop_first() =~= Seq::<nat>::empty());
        assert(total(chunk_sizes(n).drop_first()) == 0);
    }
}

proof fn lemma_chunk_step(filled: nat, n: nat)
    requires
        filled % (BIBLE_INSERT_CHUNK as nat) == 0,
        filled + BIBLE_INSERT_CHUNK < n,
    ensures
        full_chunks(filled).push(BIBLE_INSERT_CHUNK as nat) == full_chunks(
            (filled + BIBLE_INSERT_CHUNK) as nat,
        ),
{
    assert(((filled + BIBLE_INSERT_CHUNK) as nat) / (BIBLE_INSERT_CHUNK as nat) == filled
        / (BIBLE_INSERT_CHUNK as nat) + 1);
    assert(full_chunks(filled).push(BIBLE_INSERT_CHUNK as nat) =~= full_chunks(
        (filled + BIBLE_INSERT_CHUNK) as nat,
    ));
}

/// `filled / CHUNK` full batches.
spec fn full_chunks(filled: nat) -> Seq<nat> {
    Seq::new(filled / (BIBLE_INSERT_CHUNK as nat), |i: int| BIBLE_INSERT_CHUNK as nat)
}

proof fn lemma_chunk_sizes_split(filled: nat, n: nat)
    requires
        filled % (BIBLE_INSERT_CHUNK as nat) == 0,
        filled <= n,
        n <= filled + BIBLE_INSERT_CHUNK,
    ensures
        chunk_sizes(n) == full_chunks(filled) + chunk_sizes((n - filled) as nat),
    decreases filled,
{
    if filled == 0 {
        assert(full_chunks(0) =~= Seq::<nat>::empty());
        assert(chunk_sizes(n) =~= Seq::<nat>::empty() + chunk_sizes(n));
    } else {
        let prev = (filled - BIBLE_INSERT_CHUNK) as nat;
        assert(prev % (BIBLE_INSERT_CHUNK as nat) == 0);
        lemma_chunk_sizes_split(prev, (n - BIBLE_INSERT_CHUNK) as nat);
        assert(filled / (BIBLE_INSERT_CHUNK as nat) == prev / (BIBLE_INSERT_CHUNK as nat) + 1);
        assert(full_chunks(filled) =~= seq![BIBLE_INSERT_CHUNK as nat] + full_chunks(prev));
        assert(chunk_sizes(n) == seq![BIBLE_INSERT_CHUNK as nat] + chunk_sizes(
            (n - BIBLE_INSERT_CHUNK) as nat,
        ));
        assert(chunk_sizes(n) =~= full_chunks(filled) + chunk_sizes((n - filled) as nat));
    }
}

/// The sizes of the insert statements for `n` passage rows, in order.
pub fn insert_chunk_sizes(n: usize) -> (r: Vec<usize>)
    ensures
        r@.len() == chunk_sizes(n as nat).len(),
        forall|i: int| 0 <= i < r@.len() ==> r@[i] as nat == #[trigger] chunk_sizes(n as nat)[i],
{
    let mut r: Vec<usize> = Vec::new();
    let mut filled: usize = 0;
    while n - filled > BIBLE_INSERT_CHUNK
        invariant
            filled <= n,
            filled % BIBLE_INSERT_CHUNK == 0,
            r@.len() == full_chunks(filled as nat).len(),
            forall|i: int| 0 <= i < r@.len() ==> r@[i] == BIBLE_INSERT_CHUNK,
        decreases n - filled,
    {
        proof {
            lemma_chunk_step(filled as nat, n as nat);
        }
        r.push(BIBLE_INSERT_CHUNK);
        filled = filled + BIBLE_INSERT_CHUNK;
    }
    let ghost head = r@;
    if n > filled {
        r.push(n - filled);
    }
    proof {
        lemma_chunk_sizes_split(filled as nat, n as nat);
        let rest = (n - filled) as nat;
        if rest == 0 {
            assert(chunk_sizes(rest) =~= Seq::<nat>::empty());
        } else {
            assert(chunk_sizes(rest) == seq![rest]);
        }
        assert forall|i: int| 0 <= i < r@.len() implies r@[i] as nat == #[trigger] chunk_sizes(
            n as nat,
        )[i] by {
            if i < head.len() {
                assert(chunk_sizes(n as nat)[i] == full_chunks(filled as nat)[i]);
            } else {
                assert(chunk_sizes(n as nat)[i] == chunk_sizes(rest)[i - head.len()]);
            }
        }
    }
    r
}

/// One chapter of a book as the grouped passage query returns it.
#[derive(Debug, Clone)]
pub struct ChapterRow {
    pub book: String,
    pub book_code: String,
    pub book_number: i32,
    pub chapter: i32,
    pub verse_count: i32,
}

/// The summary of one chapter handed to the client.
#[derive(Debug, Clone)]
pub struct ChapterSummary {
    pub book: String,
    pub book_code: Option<String>,
    pub book_number: Option<u16>,
    pub chapter: u16,
    pub verse_count: u16,
}

/// A stored count as a `u16`: a negative one reads as 0, and the value is
/// then cut to 16 bits.
pub open spec fn count_u16(v: i32) -> u16 {
    (if v < 0 {
        0
    } else {
        v
    }) as u16
}

fn to_count_u16(v: i32) -> (r: u16)
    ensures
        r == count_u16(v),
{
    let n: i32 = if v < 0 {
        0
    } else {
        v
    };
    #[verifier::truncate]
    (n as u16)
}

/// The summary of a chapter row.
pub fn chapter_summary(row: &ChapterRow) -> (s: ChapterSummary)
    ensures
        s.book@ == row.book@,
        s.book_code matches Some(c) && c@ == row.book_code@,
        s.book_number == Some(count_u16(row.book_number)),
        s.chapter == count_u16(row.chapter),
        s.verse_count == count_u16(row.verse_count),
{
    ChapterSummary {
        book: row.book.clone(),
        book_code: Some(row.book_code.clone()),
        book_number: Some(to_count_u16(row.book_number)),
        chapter: to_count_u16(row.chapter),
        verse_count: to_count_u16(row.verse_count),
    }
}

/// The position of a stored Bible slide: a negative one reads as 0.
pub fn bible_slide_order(slide_order: i32) -> (r: u32)
    ensures
        r == (if slide_order < 0 {
            0
        } else {
            slide_order as int
        }),
{
    if slide_order < 0 {
        0
    } else {
        slide_order as u32
    }
}

/// The order numbers written for `n` slides, from `first` on.
pub fn slide_orders(first: u32, n: usize) -> (r: Vec<u32>)
    requires
        first + n <= u32::MAX + 1,
    ensures
        r@.len() == n,
        forall|i: int| 0 <= i < n ==> #[trigger] r@[i] == first + i,
{
    let mut r: Vec<u32> = Vec::new();
    let mut i: usize = 0;
    while i < n
        invariant
            i <= n,
            first + n <= u32::MAX + 1,
            r@.len() == i,
            forall|k: int| 0 <= k < i ==> #[trigger] r@[k] == first + k,
        decreases n - i,
    {
        r.push(first + i as u32);
        i = i + 1;
    }
    r
}

/// Where appended slides start: after the slides already there, the count
/// cut to 32 bits.
pub fn append_start(existing_count: u64) -> (r: u32)
    ensures
        r == existing_count as u32,
{
    #[verifier::truncate]
    (existing_count as u32)
}

/// The slide count of one Bible presentation, as the grouped query returns
/// it.
#[derive(Debug, Clone)]
pub struct SlideCountRow {
    pub presentation_id: String,
    pub slide_count: i64,
}

/// The count listed for presentation `id` (a later row for the same id
/// replaces an earlier one).
pub open spec fn count_lookup(rows: Seq<SlideCountRow>, id: Seq<char>) -> Option<i64>
    decreases rows.len(),
{
    if rows.len() == 0 {
        None
    } else if rows.last().presentation_id@ == id {
        Some(rows.last().slide_count)
    } else {
        count_lookup(rows.drop_last(), id)
    }
}

fn find_count(rows: &Vec<SlideCountRow>, id: &str) -> (r: Option<i64>)
    ensures
        r == count_lookup(rows@, id@),
{
    let mut r: Option<i64> = None;
    let mut i: usize = 0;
    while i < rows.len()
        invariant
            i <= rows.len(),
            r == count_lookup(rows@.take(i as int), id@),
        decreases rows.len() - i,
    {
        assert(rows@.take(i + 1).drop_last() == rows@.take(i as int));
        if crate::text::str_equal(rows[i].presentation_id.as_str(), id) {
            r = Some(rows[i].slide_count);
        }
        i = i + 1;
    }
    assert(rows@.take(rows.len() as int) == rows@);
    r
}

/// The slide count of each presentation, in the order given: its listed
/// count (cut to `usize`), or 0 when it has no slides.
pub fn slide_counts(presentation_ids: &Vec<String>, rows: &Vec<SlideCountRow>) -> (r: Vec<usize>)
    ensures
        r@.len() == presentation_ids@.len(),
        forall|i: int|
            0 <= i < r@.len() ==> #[trigger] r@[i] == match count_lookup(
                rows@,
                presentation_ids@[i]@,
            ) {
                Some(c) => c as usize,
                None => 0usize,
            },
{
    let mut r: Vec<usize> = Vec::new();
    let mut i: usize = 0;
    while i < presentation_ids.len()
        invariant
            i <= presentation_ids.len(),
            r@.len() == i,
            forall|k: int|
                0 <= k < i ==> #[trigger] r@[k] == match count_lookup(rows@, presentation_ids@[k]@) {
                    Some(c) => c as usize,
                    None => 0usize,
                },
        decreases presentation_ids.len() - i,
    {
        let n: usize = match find_count(rows, presentation_ids[i].as_str()) {
            Some(c) => {
                #[verifier::truncate]
                (c as usize)
            },
            None => 0,
        };
        r.push(n);
        i = i + 1;
    }
    r
}

/// The full-text index rows of one translation code, in order (each row
/// reduced to the indexed passage text).
pub open spec fn fts_rows_of(fts: Seq<(Seq<char>, Seq<char>)>, code: Seq<char>) -> Seq<Seq<char>>
    decreases fts.len(),
{
    if fts.len() == 0 {
        Seq::empty()
    } else if fts.last().0 == code {
        fts_rows_of(fts.drop_last(), code).push(fts.last().1)
    } else {
        fts_rows_of(fts.drop_last(), code)
    }
}

/// The index rows of every other translation code, in order.
pub open spec fn fts_without(fts: Seq<(Seq<char>, Seq<char>)>, code: Seq<char>) -> Seq<(Seq<char>, Seq<char>)>
    decreases fts.len(),
{
    if fts.len() == 0 {
        Seq::empty()
    } else if fts.last().0 == code {
        fts_without(fts.drop_last(), code)
    } else {
        fts_without(fts.drop_last(), code).push(fts.last())
    }
}

/// The index after an import of `passages` for `code`: the import first
/// deletes the index rows of `code`, then indexes every passage now stored
/// for `code`, which are exactly the batch's (see
/// [`lemma_import_plan_effect`]).
pub open spec fn fts_after_import(
    fts: Seq<(Seq<char>, Seq<char>)>,
    code: Seq<char>,
    passages: Seq<Seq<char>>,
) -> Seq<(Seq<char>, Seq<char>)> {
    fts_without(fts, code) + passages.map_values(|p: Seq<char>| (code, p))
}

proof fn lemma_rows_of_append(a: Seq<(Seq<char>, Seq<char>)>, b: Seq<(Seq<char>, Seq<char>)>, code: Seq<char>)
    ensures
        fts_rows_of(a + b, code) == fts_rows_of(a, code) + fts_rows_of(b, code),
        fts_without(a + b, code) == fts_without(a, code) + fts_without(b, code),
    decreases b.len(),
{
    if b.len() == 0 {
        assert(a + b =~= a);
        assert(fts_rows_of(a, code) + fts_rows_of(b, code) =~= fts_rows_of(a, code));
        assert(fts_without(a, code) + fts_without(b, code) =~= fts_without(a, code));
    } else {
        lemma_rows_of_append(a, b.drop_last(), code);
        assert((a + b).drop_last() =~= a + b.drop_last());
        assert((a + b).last() == b.last());
        assert(fts_rows_of(a + b, code) =~= fts_rows_of(a, code) + fts_rows_of(b, code));
        assert(fts_without(a + b, code) =~= fts_without(a, code) + fts_without(b, code));
    }
}

proof fn lemma_indexed_batch(code: Seq<char>, passages: Seq<Seq<char>>)
    ensures
        fts_rows_of(passages.map_values(|p: Seq<char>| (code, p)), code) == passages,
        fts_without(passages.map_values(|p: Seq<char>| (code, p)), code) == Seq::<(Seq<char>, Seq<char>)>::empty(),
    decreases passages.len(),
{
    let m = passages.map_values(|p: Seq<char>| (code, p));
    if passages.len() > 0 {
        lemma_indexed_batch(code, passages.drop_last());
        assert(m.drop_last() =~= passages.drop_last().map_values(|p: Seq<char>| (code, p)));
        assert(fts_rows_of(m, code) =~= passages);
    } else {
        assert(fts_rows_of(m, code) =~= passages);
    }
}

proof fn lemma_without_idempotent(fts: Seq<(Seq<char>, Seq<char>)>, code: Seq<char>)
    ensures
        fts_without(fts_without(fts, code), code) == fts_without(fts, code),
        fts_rows_of(fts_without(fts, code), code) == Seq::<Seq<char>>::empty(),
    decreases fts.len(),
{
    if fts.len() > 0 {
        lemma_without_idempotent(fts.drop_last(), code);
        if fts.last().0 != code {
            let w = fts_without(fts.drop_last(), code);
            assert(fts_without(fts, code).drop_last() =~= w);
        }
    }
}

proof fn lemma_without_other(fts: Seq<(Seq<char>, Seq<char>)>, code: Seq<char>, other: Seq<char>)
    requires
        other != code,
    ensures
        fts_rows_of(fts_without(fts, code), other) == fts_rows_of(fts, other),
    decreases fts.len(),
{
    if fts.len() > 0 {
        lemma_without_other(fts.drop_last(), code, other);
        if fts.last().0 != code {
            let w = fts_without(fts.drop_last(), code);
            assert(fts_without(fts, code).drop_last() =~= w);
        }
    }
}

/// Re-importing a translation leaves its full-text index as one import
/// left it: exactly one row per passage of the batch (nothing accumulates),
/// and the rows of every other translation are untouched.
pub proof fn lemma_reimport_index_rows(
    fts: Seq<(Seq<char>, Seq<char>)>,
    code: Seq<char>,
    passages: Seq<Seq<char>>,
    other: Seq<char>,
)
    requires
        other != code,
    ensures
        fts_after_import(fts_after_import(fts, code, passages), code, passages) == fts_after_import(
            fts,
            code,
            passages,
        ),
        fts_rows_of(fts_after_import(fts, code, passages), code) == passages,
        fts_rows_of(fts_after_import(fts, code, passages), other) == fts_rows_of(fts, other),
{
    let batch = passages.map_values(|p: Seq<char>| (code, p));
    let once = fts_after_import(fts, code, passages);
    lemma_rows_of_append(fts_without(fts, code), batch, code);
    lemma_indexed_batch(code, passages);
    lemma_without_idempotent(fts, code);
    assert(fts_without(once, code) =~= fts_without(fts, code));
    assert(fts_rows_of(once, code) =~= passages);
    lemma_rows_of_append(fts_without(fts, code), batch, other);
    lemma_without_other(fts, code, other);
    lemma_other_not_in_batch(code, passages, other);
    assert(fts_rows_of(once, other) =~= fts_rows_of(fts, other));
}

proof fn lemma_other_not_in_batch(code: Seq<char>, passages: Seq<Seq<char>>, other: Seq<char>)
    requires
        other != code,
    ensures
        fts_rows_of(passages.map_values(|p: Seq<char>| (code, p)), other) == Seq::<Seq<char>>::empty(),
    decreases passages.len(),
{
    let m = passages.map_values(|p: Seq<char>| (code, p));
    if passages.len() > 0 {
        lemma_other_not_in_batch(code, passages.drop_last(), other);
        assert(m.drop_last() =~= passages.drop_last().map_values(|p: Seq<char>| (code, p)));
    }
}

/// One step of a translation import, in the order [`plan_bible_import`]
/// lists them; each runs inside the import's transaction.
#[derive(Debug, Clone)]
pub enum ImportStep {
    /// Delete the translation's full-text index rows (other translations'
    /// rows stay).
    ClearIndex,
    /// Drop the triggers that index passages as they are written.
    DropIndexTriggers,
    /// Delete the translation row; its passages go with it.
    DeleteTranslation,
    /// Insert the translation row that [`plan_translation_row`] planned.
    InsertTranslation,
    /// Insert the batch's passages, in order, in inserts of these sizes.
    InsertPassages(Vec<usize>),
    /// Index every passage now stored for the translation in one statement.
    IndexTranslation,
    /// Recreate the indexing triggers.
    RestoreIndexTriggers,
}

/// The stored passages and full-text index rows (each a translation code
/// with a passage text) and whether the indexing triggers are in place.
pub type ImportState = (Seq<(Seq<char>, Seq<char>)>, Seq<(Seq<char>, Seq<char>)>, bool);

/// The rows of `texts` under translation `code`.
pub open spec fn tagged(code: Seq<char>, texts: Seq<Seq<char>>) -> Seq<(Seq<char>, Seq<char>)> {
    texts.map_values(|p: Seq<char>| (code, p))
}

/// The sum of the insert sizes.
pub open spec fn sizes_total(sizes: Seq<usize>) -> nat {
    total(sizes.map_values(|x: usize| x as nat))
}

/// What one step does to the store when translation `code` is imported
/// with the passage texts `batch`. With the triggers in place, a passage
/// written or deleted is indexed or unindexed with it.
pub open spec fn step_effect(s: ImportState, step: ImportStep, code: Seq<char>, batch: Seq<Seq<char>>) -> ImportState {
    let (passages, fts, triggers) = s;
    match step {
        ImportStep::ClearIndex => (passages, fts_without(fts, code), triggers),
        ImportStep::DropIndexTriggers => (passages, fts, false),
        ImportStep::DeleteTranslation => (
            fts_without(passages, code),
            if triggers {
                fts_without(fts, code)
            } else {
                fts
            },
            triggers,
        ),
        ImportStep::InsertTranslation => s,
        ImportStep::InsertPassages(sizes) => {
            let added = tagged(code, batch.take(sizes_total(sizes@) as int));
            (passages + added, if triggers {
                fts + added
            } else {
                fts
            }, triggers)
        },
        ImportStep::IndexTranslation => (passages, fts + tagged(code, fts_rows_of(passages, code)), triggers),
        ImportStep::RestoreIndexTriggers => (passages, fts, true),
    }
}

/// The store after running `steps` in order.
pub open spec fn run_steps(s: ImportState, steps: Seq<ImportStep>, code: Seq<char>, batch: Seq<Seq<char>>) -> ImportState
    decreases steps.len(),
{
    if steps.len() == 0 {
        s
    } else {
        run_steps(step_effect(s, steps[0], code, batch), steps.drop_first(), code, batch)
    }
}

/// Whether `steps` is the import of a batch of `n` passages.
pub open spec fn is_import_plan(steps: Seq<ImportStep>, n: nat) -> bool {
    &&& steps.len() == 7
    &&& steps[0] is ClearIndex
    &&& steps[1] is DropIndexTriggers
    &&& steps[2] is DeleteTranslation
    &&& steps[3] is InsertTranslation
    &&& steps[4] matches ImportStep::InsertPassages(sizes) && sizes@.map_values(|x: usize| x as nat)
        == chunk_sizes(n)
    &&& steps[5] is IndexTranslation
    &&& steps[6] is RestoreIndexTriggers
}

/// The steps of importing a batch of `passage_count` passages: clear the
/// translation's index rows, drop the indexing triggers, replace the
/// translation row (its old passages go with it), insert the passages in
/// batches of at most [`BIBLE_INSERT_CHUNK`], index them in one statement
/// and restore the triggers.
pub fn plan_bible_import(passage_count: usize) -> (r: Vec<ImportStep>)
    ensures
        is_import_plan(r@, passage_count as nat),
{
    let sizes = insert_chunk_sizes(passage_count);
    proof {
        assert(sizes@.map_values(|x: usize| x as nat) =~= chunk_sizes(passage_count as nat));
    }
    let mut r: Vec<ImportStep> = Vec::new();
    r.push(ImportStep::ClearIndex);
    r.push(ImportStep::DropIndexTriggers);
    r.push(ImportStep::DeleteTranslation);
    r.push(ImportStep::InsertTranslation);
    r.push(ImportStep::InsertPassages(sizes));
    r.push(ImportStep::IndexTranslation);
    r.push(ImportStep::RestoreIndexTriggers);
    r
}

/// Running an import plan leaves the batch as the translation's only
/// passages, the index as [`fts_after_import`] describes it, and the
/// triggers in place, whatever the store held before.
pub proof fn lemma_import_plan_effect(
    s: ImportState,
    steps: Seq<ImportStep>,
    code: Seq<char>,
    batch: Seq<Seq<char>>,
)
    requires
        is_import_plan(steps, batch.len()),
    ensures
        run_steps(s, steps, code, batch) == (
            fts_without(s.0, code) + tagged(code, batch),
            fts_after_import(s.1, code, batch),
            true,
        ),
{
    reveal_with_fuel(run_steps, 8);
    let sizes = steps[4]->InsertPassages_0;
    lemma_chunks_cover(batch.len());
    assert(sizes_total(sizes@) == batch.len());
    assert(batch.take(batch.len() as int) =~= batch);
    let (p, f, t) = s;
    let wp = fts_without(p, code);
    let added = tagged(code, batch);
    lemma_rows_of_append(wp, added, code);
    lemma_without_idempotent(p, code);
    lemma_indexed_batch(code, batch);
    assert(fts_rows_of(wp + added, code) =~= batch);
    let s1 = step_effect(s, steps[0], code, batch);
    let s2 = step_effect(s1, steps[1], code, batch);
    let s3 = step_effect(s2, steps[2], code, batch);
    let s4 = step_effect(s3, steps[3], code, batch);
    let s5 = step_effect(s4, steps[4], code, batch);
    let s6 = step_effect(s5, steps[5], code, batch);
    let s7 = step_effect(s6, steps[6], code, batch);
    assert(s2 == (p, fts_without(f, code), false));
    assert(s3 == (wp, fts_without(f, code), false));
    assert(s5 == (wp + added, fts_without(f, code), false));
    assert(s7 == (wp + added, fts_after_import(f, code, batch), true));
    let d1 = steps.drop_first();
    let d2 = d1.drop_first();
    let d3 = d2.drop_first();
    let d4 = d3.drop_first();
    let d5 = d4.drop_first();
    let d6 = d5.drop_first();
    let d7 = d6.drop_first();
    assert(d1[0] == steps[1] && d2[0] == steps[2] && d3[0] == steps[3] && d4[0] == steps[4]);
    assert(d5[0] == steps[5] && d6[0] == steps[6] && d7.len() == 0);
}

/// Importing the same batch again changes nothing: the passages and the
/// index are as the first import left them (no index row accumulates), the
/// translation's index rows are exactly the batch's, and every other
/// translation's rows are as they were before either import.
pub proof fn lemma_import_plan_reimport(
    s: ImportState,
    steps: Seq<ImportStep>,
    code: Seq<char>,
    batch: Seq<Seq<char>>,
    other: Seq<char>,
)
    requires
        is_import_plan(steps, batch.len()),
        other != code,
    ensures
        run_steps(run_steps(s, steps, code, batch), steps, code, batch) == run_steps(s, steps, code, batch),
        fts_rows_of(run_steps(s, steps, code, batch).1, code) == batch,
        fts_rows_of(run_steps(s, steps, code, batch).1, other) == fts_rows_of(s.1, other),
{
    let once = run_steps(s, steps, code, batch);
    lemma_import_plan_effect(s, steps, code, batch);
    lemma_import_plan_effect(once, steps, code, batch);
    lemma_reimport_index_rows(s.1, code, batch, other);
    let wp = fts_without(s.0, code);
    let added = tagged(code, batch);
    lemma_rows_of_append(wp, added, code);
    lemma_without_idempotent(s.0, code);
    lemma_indexed_batch(code, batch);
    assert(fts_without(wp + added, code) =~= wp);
}

} // verus!
