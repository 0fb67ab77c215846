//! Assembling the library tree from the three flat row lists the database
//! returns: libraries by name, their live presentations by name, and the
//! slides of those presentations by position.
use crate::sync::{
    chars_lt, lemma_text_lt_asymmetric, lemma_text_lt_irreflexive, lemma_text_lt_total,
    lemma_text_lt_transitive, text_lt,
};
use crate::error::RepositoryError;
use crate::sync::name_views;
use crate::text::chars_of;
use crate::uuid_text::{parse_uuid, parsed_uuid};
use vstd::prelude::*;

verus! {

/// A library row.
#[derive(Debug, Clone)]
pub struct LibraryRecord {
    pub id: String,
    pub name: String,
    pub deleted: bool,
}

/// A presentation row.
#[derive(Debug, Clone)]
pub struct PresentationRecord {
    pub id: String,
    pub library_id: String,
    pub name: String,
    pub deleted: bool,
}

/// A slide row; its content travels with it unread.
#[derive(Debug, Clone)]
pub struct SlideRecord {
    pub id: String,
    pub presentation_id: String,
    pub position: i32,
}

/// A presentation with its slides.
#[derive(Debug, Clone)]
pub struct PresentationTree {
    pub id: String,
    pub name: String,
    pub slides: Vec<SlideRecord>,
}

/// A library with its presentations.
#[derive(Debug, Clone)]
pub struct LibraryTree {
    pub id: String,
    pub name: String,
    pub presentations: Vec<PresentationTree>,
}

/// The slides of presentation `pid`, in the order given.
pub open spec fn slides_of(slides: Seq<SlideRecord>, pid: Seq<char>) -> Seq<SlideRecord>
    decreases slides.len(),
{
    if slides.len() == 0 {
        Seq::empty()
    } else {
        let rest = slides_of(slides.drop_last(), pid);
        if slides.last().presentation_id@ == pid {
            rest.push(slides.last())
        } else {
            rest
        }
    }
}

/// The presentations of library `lid`, in the order given.
pub open spec fn presentations_of(presentations: Seq<PresentationRecord>, lid: Seq<char>) -> Seq<
    PresentationRecord,
>
    decreases presentations.len(),
{
    if presentations.len() == 0 {
        Seq::empty()
    } else {
        let rest = presentations_of(presentations.drop_last(), lid);
        if presentations.last().library_id@ == lid {
            rest.push(presentations.last())
        } else {
            rest
        }
    }
}

/// `tree` is presentation `p` with its slides out of `slides`.
pub open spec fn presentation_tree_of(
    tree: PresentationTree,
    p: PresentationRecord,
    slides: Seq<SlideRecord>,
) -> bool {
    &&& tree.id@ == p.id@
    &&& tree.name@ == p.name@
    &&& tree.slides@ == slides_of(slides, p.id@)
}

/// `tree` is library `lib` with its presentations and their slides.
pub open spec fn library_tree_of(
    tree: LibraryTree,
    lib: LibraryRecord,
    presentations: Seq<PresentationRecord>,
    slides: Seq<SlideRecord>,
) -> bool {
    let own = presentations_of(presentations, lib.id@);
    &&& tree.id@ == lib.id@
    &&& tree.name@ == lib.name@
    &&& tree.presentations@.len() == own.len()
    &&& forall|j: int|
        0 <= j < own.len() ==> presentation_tree_of(
            #[trigger] tree.presentations@[j],
            own[j],
            slides,
        )
}

fn copy_slide(s: &SlideRecord) -> (r: SlideRecord)
    ensures
        r == *s,
{
    SlideRecord { id: s.id.clone(), presentation_id: s.presentation_id.clone(), position: s.position }
}

/// The slides of presentation `pid`, in order.
pub fn collect_slides(slides: &Vec<SlideRecord>, pid: &str) -> (r: Vec<SlideRecord>)
    ensures
        r@ == slides_of(slides@, pid@),
{
    let mut r: Vec<SlideRecord> = Vec::new();
    let mut i: usize = 0;
    while i < slides.len()
        invariant
            i <= slides.len(),
            r@ == slides_of(slides@.take(i as int), pid@),
        decreases slides.len() - i,
    {
        let s = &slides[i];
        assert(slides@.take(i + 1).drop_last() == slides@.take(i as int));
        if crate::text::str_equal(s.presentation_id.as_str(), pid) {
            r.push(copy_slide(s));
        }
        i = i + 1;
    }
    assert(slides@.take(slides.len() as int) == slides@);
    r
}

fn collect_presentations(presentations: &Vec<PresentationRecord>, lid: &str) -> (r: Vec<usize>)
    ensures
        r@.len() == presentations_of(presentations@, lid@).len(),
        forall|j: int|
            0 <= j < r@.len() ==> #[trigger] r@[j] < presentations@.len() && presentations@[r@[j] as int]
                == presentations_of(presentations@, lid@)[j],
{
    let mut r: Vec<usize> = Vec::new();
    let mut i: usize = 0;
    while i < presentations.len()
        invariant
            i <= presentations.len(),
            r@.len() == presentations_of(presentations@.take(i as int), lid@).len(),
            forall|j: int|
                0 <= j < r@.len() ==> #[trigger] r@[j] < i && presentations@[r@[j] as int]
                    == presentations_of(presentations@.take(i as int), lid@)[j],
        decreases presentations.len() - i,
    {
        assert(presentations@.take(i + 1).drop_last() == presentations@.take(i as int));
        assert(presentations@.take(i + 1).last() == presentations@[i as int]);
        if crate::text::str_equal(presentations[i].library_id.as_str(), lid) {
            r.push(i);
        }
        i = i + 1;
    }
    assert(presentations@.take(presentations.len() as int) == presentations@);
    r
}

/// The library tree: each library in the order given, with the
/// presentations that belong to it in the order given, each with its slides
/// in the order given.
pub fn assemble_library_tree(
    libraries: &Vec<LibraryRecord>,
    presentations: &Vec<PresentationRecord>,
    slides: &Vec<SlideRecord>,
) -> (r: Vec<LibraryTree>)
    ensures
        r@.len() == libraries@.len(),
        forall|i: int|
            0 <= i < r@.len() ==> library_tree_of(
                #[trigger] r@[i],
                libraries@[i],
                presentations@,
                slides@,
            ),
{
    let mut r: Vec<LibraryTree> = Vec::new();
    let mut i: usize = 0;
    while i < libraries.len()
        invariant
            i <= libraries.len(),
            r@.len() == i,
            forall|k: int|
                0 <= k < i ==> library_tree_of(#[trigger] r@[k], libraries@[k], presentations@, slides@),
        decreases libraries.len() - i,
    {
        let lib = &libraries[i];
        let picks = collect_presentations(presentations, lib.id.as_str());
        let ghost own = presentations_of(presentations@, lib.id@);
        let mut trees: Vec<PresentationTree> = Vec::new();
        let mut j: usize = 0;
        while j < picks.len()
            invariant
                j <= picks.len(),
                picks@.len() == own.len(),
                own == presentations_of(presentations@, lib.id@),
                forall|q: int|
                    0 <= q < picks@.len() ==> #[trigger] picks@[q] < presentations@.len()
                        && presentations@[picks@[q] as int] == own[q],
                trees@.len() == j,
                forall|q: int|
                    0 <= q < j ==> presentation_tree_of(#[trigger] trees@[q], own[q], slides@),
            decreases picks.len() - j,
        {
            let p = &presentations[picks[j]];
            let tree = PresentationTree {
                id: p.id.clone(),
                name: p.name.clone(),
                slides: collect_slides(slides, p.id.as_str()),
            };
            trees.push(tree);
            j = j + 1;
        }
        r.push(LibraryTree { id: lib.id.clone(), name: lib.name.clone(), presentations: trees });
        i = i + 1;
    }
    r
}

/// A library with the number and the names of its presentations.
#[derive(Debug, Clone)]
pub struct LibrarySummaryRow {
    pub id: String,
    pub name: String,
    pub presentation_count: usize,
    pub presentations: Vec<PresentationRecord>,
}

fn copy_presentation(p: &PresentationRecord) -> (r: PresentationRecord)
    ensures
        r == *p,
{
    PresentationRecord {
        id: p.id.clone(),
        library_id: p.library_id.clone(),
        name: p.name.clone(),
        deleted: p.deleted,
    }
}

/// The library summaries: each library in the order given, with its
/// presentations in the order given and their number.
pub fn summarize_libraries(
    libraries: &Vec<LibraryRecord>,
    presentations: &Vec<PresentationRecord>,
) -> (r: Vec<LibrarySummaryRow>)
    ensures
        r@.len() == libraries@.len(),
        forall|i: int|
            0 <= i < r@.len() ==> {
                let s = #[trigger] r@[i];
                &&& s.id@ == libraries@[i].id@
                &&& s.name@ == libraries@[i].name@
                &&& s.presentations@ == presentations_of(presentations@, libraries@[i].id@)
                &&& s.presentation_count == s.presentations@.len()
            },
{
    let mut r: Vec<LibrarySummaryRow> = Vec::new();
    let mut i: usize = 0;
    while i < libraries.len()
        invariant
            i <= libraries.len(),
            r@.len() == i,
            forall|k: int|
                0 <= k < i ==> {
                    let s = #[trigger] r@[k];
                    &&& s.id@ == libraries@[k].id@
                    &&& s.name@ == libraries@[k].name@
                    &&& s.presentations@ == presentations_of(presentations@, libraries@[k].id@)
                    &&& s.presentation_count == s.presentations@.len()
                },
        decreases libraries.len() - i,
    {
        let lib = &libraries[i];
        let picks = collect_presentations(presentations, lib.id.as_str());
        let ghost own = presentations_of(presentations@, lib.id@);
        let mut list: Vec<PresentationRecord> = Vec::new();
        let mut j: usize = 0;
        while j < picks.len()
            invariant
                j <= picks.len(),
                picks@.len() == own.len(),
                forall|q: int|
                    0 <= q < picks@.len() ==> #[trigger] picks@[q] < presentations@.len()
                        && presentations@[picks@[q] as int] == own[q],
                list@ == own.take(j as int),
            decreases picks.len() - j,
        {
            list.push(copy_presentation(&presentations[picks[j]]));
            j = j + 1;
            assert(list@ == own.take(j as int));
        }
        assert(own.take(own.len() as int) == own);
        let n = list.len();
        r.push(LibrarySummaryRow { id: lib.id.clone(), name: lib.name.clone(), presentation_count: n, presentations: list });
        i = i + 1;
    }
    r
}

/// Whether text `a` sorts no later than `b` (code point order, a prefix
/// first).
pub open spec fn name_le(a: Seq<char>, b: Seq<char>) -> bool {
    !text_lt(b, a)
}

proof fn lemma_name_le_transitive(a: Seq<char>, b: Seq<char>, c: Seq<char>)
    requires
        name_le(a, b),
        name_le(b, c),
    ensures
        name_le(a, c),
{
    if text_lt(c, a) {
        if a == b {
        } else {
            lemma_text_lt_total(a, b);
            lemma_text_lt_transitive(c, a, b);
        }
    }
}

proof fn lemma_lt_gives_le(a: Seq<char>, b: Seq<char>)
    requires
        text_lt(a, b),
    ensures
        name_le(a, b),
{
    lemma_text_lt_asymmetric(a, b);
}

/// The live libraries of `s`, in order.
pub open spec fn live_libraries(s: Seq<LibraryRecord>) -> Seq<LibraryRecord>
    decreases s.len(),
{
    if s.len() == 0 {
        Seq::empty()
    } else if s.last().deleted {
        live_libraries(s.drop_last())
    } else {
        live_libraries(s.drop_last()).push(s.last())
    }
}

/// The live presentations of `s`, in order.
pub open spec fn live_presentations(s: Seq<PresentationRecord>) -> Seq<PresentationRecord>
    decreases s.len(),
{
    if s.len() == 0 {
        Seq::empty()
    } else if s.last().deleted {
        live_presentations(s.drop_last())
    } else {
        live_presentations(s.drop_last()).push(s.last())
    }
}

/// Whether libraries are in name order.
pub open spec fn libraries_by_name(s: Seq<LibraryRecord>) -> bool {
    forall|i: int, j: int| 0 <= i < j < s.len() ==> name_le(s[i].name@, s[j].name@)
}

/// Whether presentations are in name order.
pub open spec fn presentations_by_name(s: Seq<PresentationRecord>) -> bool {
    forall|i: int, j: int| 0 <= i < j < s.len() ==> name_le(s[i].name@, s[j].name@)
}

/// Whether slides are in position order.
pub open spec fn slides_by_position(s: Seq<SlideRecord>) -> bool {
    forall|i: int, j: int| 0 <= i < j < s.len() ==> s[i].position <= s[j].position
}

fn copy_library(l: &LibraryRecord) -> (r: LibraryRecord)
    ensures
        r == *l,
{
    LibraryRecord { id: l.id.clone(), name: l.name.clone(), deleted: l.deleted }
}

fn live_library_rows(s: &Vec<LibraryRecord>) -> (r: Vec<LibraryRecord>)
    ensures
        r@ == live_libraries(s@),
{
    let mut r: Vec<LibraryRecord> = Vec::new();
    let mut i: usize = 0;
    while i < s.len()
        invariant
            i <= s.len(),
            r@ == live_libraries(s@.take(i as int)),
        decreases s.len() - i,
    {
        assert(s@.take(i + 1).drop_last() == s@.take(i as int));
        if !s[i].deleted {
            r.push(copy_library(&s[i]));
        }
        i = i + 1;
    }
    assert(s@.take(s.len() as int) == s@);
    r
}

fn live_presentation_rows(s: &Vec<PresentationRecord>) -> (r: Vec<PresentationRecord>)
    ensures
        r@ == live_presentations(s@),
{
    let mut r: Vec<PresentationRecord> = Vec::new();
    let mut i: usize = 0;
    while i < s.len()
        invariant
            i <= s.len(),
            r@ == live_presentations(s@.take(i as int)),
        decreases s.len() - i,
    {
        assert(s@.take(i + 1).drop_last() == s@.take(i as int));
        if !s[i].deleted {
            r.push(copy_presentation(&s[i]));
        }
        i = i + 1;
    }
    assert(s@.take(s.len() as int) == s@);
    r
}

fn sort_libraries(items: Vec<LibraryRecord>) -> (r: Vec<LibraryRecord>)
    ensures
        libraries_by_name(r@),
        r@.to_multiset() == items@.to_multiset(),
{
    broadcast use vstd::multiset::group_multiset_axioms;
    broadcast use vstd::seq_lib::group_to_multiset_ensures;
    let ghost all = items@;
    let mut input = items;
    let mut out: Vec<LibraryRecord> = Vec::new();
    while input.len() > 0
        invariant
            libraries_by_name(out@),
            out@.to_multiset().add(input@.to_multiset()) == all.to_multiset(),
        decreases input.len(),
    {
        let ghost in_before = input@;
        let x = input.remove(0);
        proof {
            vstd::seq_lib::to_multiset_remove(in_before, 0);
        }
        let xc = chars_of(x.name.as_str());
        let mut p: usize = 0;
        let mut stop = false;
        while p < out.len() && !stop
            invariant
                p <= out.len(),
                xc@ == x.name@,
                forall|k: int| 0 <= k < p ==> name_le(#[trigger] out@[k].name@, x.name@),
                stop ==> p < out.len() && text_lt(x.name@, out@[p as int].name@),
            decreases out.len() - p + if stop { 0int } else { 1int },
        {
            let pc = chars_of(out[p].name.as_str());
            if chars_lt(&xc, &pc) {
                stop = true;
            } else {
                p = p + 1;
            }
        }
        let ghost before = out@;
        out.insert(p, x);
        proof {
            vstd::seq_lib::to_multiset_insert(before, p as int, x);
            let after = out@;
            assert(after =~= before.insert(p as int, x));
            assert forall|a: int, b: int| 0 <= a < b < after.len() implies name_le(
                after[a].name@,
                after[b].name@,
            ) by {
                if b == p as int {
                    assert(name_le(before[a].name@, x.name@));
                } else if a == p as int {
                    lemma_lt_gives_le(x.name@, before[p as int].name@);
                    if b - 1 > p as int {
                        lemma_name_le_transitive(x.name@, before[p as int].name@, before[b - 1].name@);
                    }
                } else if a < p as int && b > p as int {
                    assert(name_le(before[a].name@, before[b - 1].name@));
                } else if a > p as int {
                    assert(name_le(before[a - 1].name@, before[b - 1].name@));
                }
            }
            assert(in_before[0] == x);
            assert(in_before.contains(x));
            vstd::seq_lib::to_multiset_contains(in_before, x);
            assert(out@.to_multiset().add(input@.to_multiset()) =~= before.to_multiset().add(
                in_before.to_multiset(),
            ));
        }
    }
    assert(input@.to_multiset() =~= vstd::multiset::Multiset::empty());
    out
}

fn sort_presentations(items: Vec<PresentationRecord>) -> (r: Vec<PresentationRecord>)
    ensures
        presentations_by_name(r@),
        r@.to_multiset() == items@.to_multiset(),
{
    broadcast use vstd::multiset::group_multiset_axioms;
    broadcast use vstd::seq_lib::group_to_multiset_ensures;
    let ghost all = items@;
    let mut input = items;
    let mut out: Vec<PresentationRecord> = Vec::new();
    while input.len() > 0
        invariant
            presentations_by_name(out@),
            out@.to_multiset().add(input@.to_multiset()) == all.to_multiset(),
        decreases input.len(),
    {
        let ghost in_before = input@;
        let x = input.remove(0);
        proof {
            vstd::seq_lib::to_multiset_remove(in_before, 0);
        }
        let xc = chars_of(x.name.as_str());
        let mut p: usize = 0;
        let mut stop = false;
        while p < out.len() && !stop
            invariant
                p <= out.len(),
                xc@ == x.name@,
                forall|k: int| 0 <= k < p ==> name_le(#[trigger] out@[k].name@, x.name@),
                stop ==> p < out.len() && text_lt(x.name@, out@[p as int].name@),
            decreases out.len() - p + if stop { 0int } else { 1int },
        {
            let pc = chars_of(out[p].name.as_str());
            if chars_lt(&xc, &pc) {
                stop = true;
            } else {
                p = p + 1;
            }
        }
        let ghost before = out@;
        out.insert(p, x);
        proof {
            vstd::seq_lib::to_multiset_insert(before, p as int, x);
            let after = out@;
            assert(after =~= before.insert(p as int, x));
            assert forall|a: int, b: int| 0 <= a < b < after.len() implies name_le(
                after[a].name@,
                after[b].name@,
            ) by {
                if b == p as int {
                    assert(name_le(before[a].name@, x.name@));
                } else if a == p as int {
                    lemma_lt_gives_le(x.name@, before[p as int].name@);
                    if b - 1 > p as int {
                        lemma_name_le_transitive(x.name@, before[p as int].name@, before[b - 1].name@);
                    }
                } else if a < p as int && b > p as int {
                    assert(name_le(before[a].name@, before[b - 1].name@));
                } else if a > p as int {
                    assert(name_le(before[a - 1].name@, before[b - 1].name@));
                }
            }
            assert(in_before[0] == x);
            assert(in_before.contains(x));
            vstd::seq_lib::to_multiset_contains(in_before, x);
            assert(out@.to_multiset().add(input@.to_multiset()) =~= before.to_multiset().add(
                in_before.to_multiset(),
            ));
        }
    }
    assert(input@.to_multiset() =~= vstd::multiset::Multiset::empty());
    out
}

fn sort_slides(items: Vec<SlideRecord>) -> (r: Vec<SlideRecord>)
    ensures
        slides_by_position(r@),
        r@.to_multiset() == items@.to_multiset(),
{
    broadcast use vstd::multiset::group_multiset_axioms;
    broadcast use vstd::seq_lib::group_to_multiset_ensures;
    let ghost all = items@;
    let mut input = items;
    let mut out: Vec<SlideRecord> = Vec::new();
    while input.len() > 0
        invariant
            slides_by_position(out@),
            out@.to_multiset().add(input@.to_multiset()) == all.to_multiset(),
        decreases input.len(),
    {
        let ghost in_before = input@;
        let x = input.remove(0);
        proof {
            vstd::seq_lib::to_multiset_remove(in_before, 0);
        }
        let mut p: usize = 0;
        let mut stop = false;
        while p < out.len() && !stop
            invariant
                p <= out.len(),
                forall|k: int| 0 <= k < p ==> out@[k].position <= x.position,
                stop ==> p < out.len() && x.position < out@[p as int].position,
            decreases out.len() - p + if stop { 0int } else { 1int },
        {
            if x.position < out[p].position {
                stop = true;
            } else {
                p = p + 1;
            }
        }
        let ghost before = out@;
        out.insert(p, x);
        proof {
            vstd::seq_lib::to_multiset_insert(before, p as int, x);
            let after = out@;
            assert(after =~= before.insert(p as int, x));
            assert forall|a: int, b: int| 0 <= a < b < after.len() implies after[a].position
                <= after[b].position by {
                if b == p as int {
                } else if a == p as int {
                    if b - 1 > p as int {
                        assert(before[p as int].position <= before[b - 1].position);
                    }
                } else if a < p as int && b > p as int {
                    assert(before[a].position <= before[b - 1].position);
                } else if a > p as int {
                    assert(before[a - 1].position <= before[b - 1].position);
                }
            }
            assert(in_before[0] == x);
            assert(in_before.contains(x));
            vstd::seq_lib::to_multiset_contains(in_before, x);
            assert(out@.to_multiset().add(input@.to_multiset()) =~= before.to_multiset().add(
                in_before.to_multiset(),
            ));
        }
    }
    assert(input@.to_multiset() =~= vstd::multiset::Multiset::empty());
    out
}

proof fn lemma_presentations_of_sorted(s: Seq<PresentationRecord>, lid: Seq<char>)
    requires
        presentations_by_name(s),
    ensures
        presentations_by_name(presentations_of(s, lid)),
        forall|k: int|
            0 <= k < presentations_of(s, lid).len() ==> s.contains(#[trigger] presentations_of(s, lid)[k]),
    decreases s.len(),
{
    if s.len() > 0 {
        let t = s.drop_last();
        assert(presentations_by_name(t));
        lemma_presentations_of_sorted(t, lid);
        let r = presentations_of(t, lid);
        if s.last().library_id@ == lid {
            let r2 = r.push(s.last());
            assert forall|k: int| 0 <= k < r.len() implies name_le(r[k].name@, s.last().name@) by {
                let j = choose|j: int| 0 <= j < t.len() && t[j] == r[k];
                assert(s[j] == t[j]);
            }
            assert forall|k: int| 0 <= k < r2.len() implies s.contains(#[trigger] r2[k]) by {
                if k < r.len() {
                    let j = choose|j: int| 0 <= j < t.len() && t[j] == r[k];
                    assert(s[j] == r2[k]);
                } else {
                    assert(s[s.len() - 1] == r2[k]);
                }
            }
        } else {
            assert forall|k: int| 0 <= k < r.len() implies s.contains(#[trigger] r[k]) by {
                let j = choose|j: int| 0 <= j < t.len() && t[j] == r[k];
                assert(s[j] == r[k]);
            }
        }
    }
}

proof fn lemma_slides_of_sorted(s: Seq<SlideRecord>, pid: Seq<char>)
    requires
        slides_by_position(s),
    ensures
        slides_by_position(slides_of(s, pid)),
        forall|k: int| 0 <= k < slides_of(s, pid).len() ==> s.contains(#[trigger] slides_of(s, pid)[k]),
    decreases s.len(),
{
    if s.len() > 0 {
        let t = s.drop_last();
        assert(slides_by_position(t));
        lemma_slides_of_sorted(t, pid);
        let r = slides_of(t, pid);
        if s.last().presentation_id@ == pid {
            let r2 = r.push(s.last());
            assert forall|k: int| 0 <= k < r.len() implies r[k].position <= s.last().position by {
                let j = choose|j: int| 0 <= j < t.len() && t[j] == r[k];
                assert(s[j] == t[j]);
            }
            assert forall|k: int| 0 <= k < r2.len() implies s.contains(#[trigger] r2[k]) by {
                if k < r.len() {
                    let j = choose|j: int| 0 <= j < t.len() && t[j] == r[k];
                    assert(s[j] == r2[k]);
                } else {
                    assert(s[s.len() - 1] == r2[k]);
                }
            }
        } else {
            assert forall|k: int| 0 <= k < r.len() implies s.contains(#[trigger] r[k]) by {
                let j = choose|j: int| 0 <= j < t.len() && t[j] == r[k];
                assert(s[j] == r[k]);
            }
        }
    }
}

/// Whether `tree` is the library tree of the live, name-ordered libraries
/// `libs`, over the live, name-ordered presentations `ps` and the
/// position-ordered slides `ss`.
pub open spec fn tree_of_sorted(
    tree: Seq<LibraryTree>,
    libs: Seq<LibraryRecord>,
    ps: Seq<PresentationRecord>,
    ss: Seq<SlideRecord>,
) -> bool {
    &&& libraries_by_name(libs)
    &&& presentations_by_name(ps)
    &&& slides_by_position(ss)
    &&& tree.len() == libs.len()
    &&& forall|i: int| 0 <= i < tree.len() ==> library_tree_of(#[trigger] tree[i], libs[i], ps, ss)
}

/// The library tree shown to the operator: the live libraries by name, each
/// with its live presentations by name, each with its slides by position.
/// Trashed libraries and trashed presentations are left out.
pub fn live_library_tree(
    libraries: &Vec<LibraryRecord>,
    presentations: &Vec<PresentationRecord>,
    slides: &Vec<SlideRecord>,
) -> (r: Vec<LibraryTree>)
    ensures
        exists|libs: Seq<LibraryRecord>, ps: Seq<PresentationRecord>, ss: Seq<SlideRecord>|
            #[trigger] tree_of_sorted(r@, libs, ps, ss) && libs.to_multiset() == live_libraries(
                libraries@,
            ).to_multiset() && ps.to_multiset() == live_presentations(presentations@).to_multiset()
                && ss.to_multiset() == slides@.to_multiset(),
        forall|i: int, j: int| 0 <= i < j < r@.len() ==> name_le(r@[i].name@, r@[j].name@),
{
    let libs = sort_libraries(live_library_rows(libraries));
    let ps = sort_presentations(live_presentation_rows(presentations));
    let mut all_slides: Vec<SlideRecord> = Vec::new();
    let mut i: usize = 0;
    while i < slides.len()
        invariant
            i <= slides.len(),
            all_slides@ == slides@.take(i as int),
        decreases slides.len() - i,
    {
        all_slides.push(copy_slide(&slides[i]));
        i = i + 1;
    }
    assert(slides@.take(slides.len() as int) == slides@);
    let ss = sort_slides(all_slides);
    let r = assemble_library_tree(&libs, &ps, &ss);
    proof {
        assert(tree_of_sorted(r@, libs@, ps@, ss@));
        assert forall|i: int, j: int| 0 <= i < j < r@.len() implies name_le(r@[i].name@, r@[j].name@) by {
            assert(library_tree_of(r@[i], libs@[i], ps@, ss@));
            assert(library_tree_of(r@[j], libs@[j], ps@, ss@));
        }
    }
    r
}

/// Whether `tree` is a library tree `live_library_tree` may build from the
/// rows: the live libraries by name, each with its live presentations by
/// name, each with its slides by position.
pub open spec fn is_live_tree(
    tree: Seq<LibraryTree>,
    libraries: Seq<LibraryRecord>,
    presentations: Seq<PresentationRecord>,
    slides: Seq<SlideRecord>,
) -> bool {
    &&& exists|libs: Seq<LibraryRecord>, ps: Seq<PresentationRecord>, ss: Seq<SlideRecord>|
        #[trigger] tree_of_sorted(tree, libs, ps, ss) && libs.to_multiset() == live_libraries(
            libraries,
        ).to_multiset() && ps.to_multiset() == live_presentations(presentations).to_multiset()
            && ss.to_multiset() == slides.to_multiset()
    &&& forall|i: int, j: int| 0 <= i < j < tree.len() ==> name_le(tree[i].name@, tree[j].name@)
}

/// The ids of a presentation's slides, in order.
pub open spec fn slide_ids(s: Seq<SlideRecord>) -> Seq<Seq<char>> {
    s.map_values(|r: SlideRecord| r.id@)
}

/// The ids a presentation of the tree is read with: its slides' ids in
/// order, then its own.
pub open spec fn presentation_read_ids(p: PresentationTree) -> Seq<Seq<char>> {
    slide_ids(p.slides@).push(p.id@)
}

/// The ids the presentations `ps` are read with, one after the other.
pub open spec fn presentations_read_ids(ps: Seq<PresentationTree>) -> Seq<Seq<char>>
    decreases ps.len(),
{
    if ps.len() == 0 {
        Seq::empty()
    } else {
        presentations_read_ids(ps.drop_last()) + presentation_read_ids(ps.last())
    }
}

/// The ids a library of the tree is read with: its presentations' ids, then
/// its own.
pub open spec fn library_read_ids(l: LibraryTree) -> Seq<Seq<char>> {
    presentations_read_ids(l.presentations@).push(l.id@)
}

/// The ids the whole tree is read with, library after library.
pub open spec fn tree_read_ids(t: Seq<LibraryTree>) -> Seq<Seq<char>>
    decreases t.len(),
{
    if t.len() == 0 {
        Seq::empty()
    } else {
        tree_read_ids(t.drop_last()) + library_read_ids(t.last())
    }
}

/// The first id of `ids` that does not parse as a UUID, if any.
pub open spec fn first_unparsed(ids: Seq<Seq<char>>) -> Option<Seq<char>>
    decreases ids.len(),
{
    if ids.len() == 0 {
        None
    } else if parsed_uuid(ids[0]) is None {
        Some(ids[0])
    } else {
        first_unparsed(ids.drop_first())
    }
}

fn push_presentation_ids(p: &PresentationTree, out: &mut Vec<String>)
    ensures
        name_views(final(out)@) == name_views(old(out)@) + presentation_read_ids(*p),
{
    let ghost start = name_views(out@);
    let mut k: usize = 0;
    while k < p.slides.len()
        invariant
            k <= p.slides.len(),
            name_views(out@) == start + slide_ids(p.slides@.take(k as int)),
        decreases p.slides.len() - k,
    {
        let ghost before = name_views(out@);
        out.push(p.slides[k].id.clone());
        assert(name_views(out@) =~= before.push(p.slides@[k as int].id@));
        assert(slide_ids(p.slides@.take(k + 1)) =~= slide_ids(p.slides@.take(k as int)).push(
            p.slides@[k as int].id@,
        ));
        k = k + 1;
    }
    assert(p.slides@.take(p.slides.len() as int) == p.slides@);
    let ghost before = name_views(out@);
    out.push(p.id.clone());
    assert(name_views(out@) =~= before.push(p.id@));
    assert(name_views(out@) =~= start + presentation_read_ids(*p));
}

fn push_library_ids(l: &LibraryTree, out: &mut Vec<String>)
    ensures
        name_views(final(out)@) == name_views(old(out)@) + library_read_ids(*l),
{
    let ghost start = name_views(out@);
    let mut k: usize = 0;
    while k < l.presentations.len()
        invariant
            k <= l.presentations.len(),
            name_views(out@) == start + presentations_read_ids(l.presentations@.take(k as int)),
        decreases l.presentations.len() - k,
    {
        let ghost before = name_views(out@);
        push_presentation_ids(&l.presentations[k], out);
        let ghost ps = l.presentations@.take(k + 1);
        assert(ps.drop_last() == l.presentations@.take(k as int));
        assert(name_views(out@) =~= start + presentations_read_ids(ps));
        k = k + 1;
    }
    assert(l.presentations@.take(l.presentations.len() as int) == l.presentations@);
    let ghost before = name_views(out@);
    out.push(l.id.clone());
    assert(name_views(out@) =~= before.push(l.id@));
    assert(name_views(out@) =~= start + library_read_ids(*l));
}

fn collect_tree_ids(tree: &Vec<LibraryTree>) -> (ids: Vec<String>)
    ensures
        name_views(ids@) == tree_read_ids(tree@),
{
    let mut out: Vec<String> = Vec::new();
    let mut k: usize = 0;
    while k < tree.len()
        invariant
            k <= tree.len(),
            name_views(out@) == tree_read_ids(tree@.take(k as int)),
        decreases tree.len() - k,
    {
        push_library_ids(&tree[k], &mut out);
        let ghost t = tree@.take(k + 1);
        assert(t.drop_last() == tree@.take(k as int));
        k = k + 1;
    }
    assert(tree@.take(tree.len() as int) == tree@);
    out
}

fn check_ids(ids: &Vec<String>) -> (r: Result<(), RepositoryError>)
    ensures
        r is Ok <==> first_unparsed(name_views(ids@)) is None,
        r matches Err(e) ==> (e matches RepositoryError::InvalidUuid(t) && first_unparsed(
            name_views(ids@),
        ) == Some(t@)),
{
    let ghost v = name_views(ids@);
    assert(v.skip(0) =~= v);
    let mut i: usize = 0;
    while i < ids.len()
        invariant
            i <= ids.len(),
            v == name_views(ids@),
            first_unparsed(v) == first_unparsed(v.skip(i as int)),
        decreases ids.len() - i,
    {
        let ghost rest = v.skip(i as int);
        assert(rest[0] == ids@[i as int]@);
        match parse_uuid(ids[i].as_str()) {
            Err(e) => {
                return Err(e);
            },
            Ok(_) => {},
        }
        assert(rest.drop_first() =~= v.skip(i + 1));
        i = i + 1;
    }
    assert(v.skip(ids.len() as int).len() == 0);
    Ok(())
}

/// The library tree shown to the operator, as [`live_library_tree`] builds
/// it, refused with `InvalidUuid` (the stored text) at the first id that
/// does not parse in the order the tree is read: library after library, each
/// presentation's slides before the presentation, and each library's
/// presentations before the library itself.
pub fn checked_library_tree(
    libraries: &Vec<LibraryRecord>,
    presentations: &Vec<PresentationRecord>,
    slides: &Vec<SlideRecord>,
) -> (r: Result<Vec<LibraryTree>, RepositoryError>)
    ensures
        exists|t: Seq<LibraryTree>|
            #![trigger tree_read_ids(t)]
            {
                &&& is_live_tree(t, libraries@, presentations@, slides@)
                &&& (r is Ok <==> first_unparsed(tree_read_ids(t)) is None)
                &&& r matches Ok(v) ==> v@ == t
                &&& r matches Err(e) ==> (e matches RepositoryError::InvalidUuid(x) && first_unparsed(
                    tree_read_ids(t),
                ) == Some(x@))
            },
{
    let tree = live_library_tree(libraries, presentations, slides);
    let ids = collect_tree_ids(&tree);
    let checked = check_ids(&ids);
    proof {
        assert(is_live_tree(tree@, libraries@, presentations@, slides@));
        assert(tree_read_ids(tree@) == name_views(ids@));
    }
    match checked {
        Ok(()) => Ok(tree),
        Err(e) => Err(e),
    }
}

/// In the library tree, each library's presentations are in name order and
/// each presentation's slides are in position order.
pub proof fn lemma_tree_children_sorted(
    tree: Seq<LibraryTree>,
    libs: Seq<LibraryRecord>,
    ps: Seq<PresentationRecord>,
    ss: Seq<SlideRecord>,
    i: int,
)
    requires
        tree_of_sorted(tree, libs, ps, ss),
        0 <= i < tree.len(),
    ensures
        presentations_by_name(presentations_of(ps, libs[i].id@)),
        forall|j: int|
            0 <= j < tree[i].presentations@.len() ==> slides_by_position(
                #[trigger] tree[i].presentations@[j].slides@,
            ),
{
    lemma_presentations_of_sorted(ps, libs[i].id@);
    assert(library_tree_of(tree[i], libs[i], ps, ss));
    assert forall|j: int| 0 <= j < tree[i].presentations@.len() implies slides_by_position(
        #[trigger] tree[i].presentations@[j].slides@,
    ) by {
        let own = presentations_of(ps, libs[i].id@);
        assert(presentation_tree_of(tree[i].presentations@[j], own[j], ss));
        lemma_slides_of_sorted(ss, own[j].id@);
    }
}

} // verus!