//! The trash and edit state a library re-import carries over from the rows it
//! replaces, so a re-import never resurrects a trashed song nor stamps an
//! older edit as new.
use crate::text::{chars_equal, chars_of};
use vstd::prelude::*;

verus! {

/// A replaced row's `(deleted_at, updated_at)`, nanoseconds since the epoch.
#[derive(Debug, Clone, Copy, PartialEq, Eq, Structural)]
pub struct RowState {
    pub deleted_at: Option<i128>,
    pub updated_at: i128,
}

/// One remembered row state, under a text key.
#[derive(Debug, Clone)]
pub struct KeyedState {
    pub key: String,
    pub state: RowState,
}

/// One remembered row state, under a `(library name, presentation name)` key.
#[derive(Debug, Clone)]
pub struct NamedState {
    pub library_name: String,
    pub presentation_name: String,
    pub state: RowState,
}

/// The state remembered under `key`: the latest entry with that key wins.
pub open spec fn keyed_lookup(entries: Seq<KeyedState>, key: Seq<char>) -> Option<RowState>
    decreases entries.len(),
{
    if entries.len() == 0 {
        None
    } else if entries.last().key@ == key {
        Some(entries.last().state)
    } else {
        keyed_lookup(entries.drop_last(), key)
    }
}

/// The state remembered under `(library, name)`: the latest entry wins.
pub open spec fn named_lookup(entries: Seq<NamedState>, library: Seq<char>, name: Seq<char>) -> Option<
    RowState,
>
    decreases entries.len(),
{
    if entries.len() == 0 {
        None
    } else if entries.last().library_name@ == library && entries.last().presentation_name@ == name {
        Some(entries.last().state)
    } else {
        named_lookup(entries.drop_last(), library, name)
    }
}

/// Trash/edit state of the rows a re-import replaces, keyed both by sync id
/// and by `(library name, presentation name)`.
#[derive(Debug, Clone)]
pub struct OldTrashState {
    pub by_sync_id: Vec<KeyedState>,
    pub by_name: Vec<NamedState>,
}

impl OldTrashState {
    /// The state remembered under a sync id.
    pub open spec fn sync_state(&self, sync_id: Seq<char>) -> Option<RowState> {
        keyed_lookup(self.by_sync_id@, sync_id)
    }

    /// The state remembered under `(library name, presentation name)`.
    pub open spec fn name_state(&self, library: Seq<char>, name: Seq<char>) -> Option<RowState> {
        named_lookup(self.by_name@, library, name)
    }

    /// Nothing remembered.
    pub fn empty() -> (s: Self)
        ensures
            forall|k: Seq<char>| s.sync_state(k) is None,
            forall|l: Seq<char>, n: Seq<char>| s.name_state(l, n) is None,
    {
        OldTrashState { by_sync_id: Vec::new(), by_name: Vec::new() }
    }

    /// Remembers `state` under `sync_id`, replacing what was there.
    pub fn remember_sync_id(&mut self, sync_id: String, state: RowState)
        ensures
            final(self).sync_state(sync_id@) == Some(state),
            forall|k: Seq<char>| k != sync_id@ ==> final(self).sync_state(k) == old(self).sync_state(k),
            forall|l: Seq<char>, n: Seq<char>| final(self).name_state(l, n) == old(self).name_state(l, n),
    {
        let ghost key = sync_id@;
        self.by_sync_id.push(KeyedState { key: sync_id, state });
        proof {
            assert(self.by_sync_id@.drop_last() == old(self).by_sync_id@);
        }
    }

    /// Remembers `state` under `(library_name, presentation_name)`, replacing
    /// what was there.
    pub fn remember_name(&mut self, library_name: String, presentation_name: String, state: RowState)
        ensures
            final(self).name_state(library_name@, presentation_name@) == Some(state),
            forall|l: Seq<char>, n: Seq<char>|
                !(l == library_name@ && n == presentation_name@) ==> final(self).name_state(l, n)
                    == old(self).name_state(l, n),
            forall|k: Seq<char>| final(self).sync_state(k) == old(self).sync_state(k),
    {
        self.by_name.push(NamedState { library_name, presentation_name, state });
        proof {
            assert(self.by_name@.drop_last() == old(self).by_name@);
        }
    }

    /// Consumes the state of an old row matching a re-imported song: by sync
    /// id first, else by `(library name, presentation name)`. The matched key
    /// is forgotten, so a same-named twin later in the same scan does not
    /// inherit it too.
    pub fn take(&mut self, sync_id: &str, library_name: &str, presentation_name: &str) -> (r: Option<
        RowState,
    >)
        ensures
            old(self).sync_state(sync_id@) is Some ==> {
                &&& r == old(self).sync_state(sync_id@)
                &&& final(self).sync_state(sync_id@) is None
                &&& forall|k: Seq<char>| k != sync_id@ ==> final(self).sync_state(k) == old(self).sync_state(k)
                &&& forall|l: Seq<char>, n: Seq<char>| final(self).name_state(l, n) == old(self).name_state(l, n)
            },
            old(self).sync_state(sync_id@) is None ==> {
                &&& r == old(self).name_state(library_name@, presentation_name@)
                &&& final(self).name_state(library_name@, presentation_name@) is None
                &&& forall|l: Seq<char>, n: Seq<char>|
                    !(l == library_name@ && n == presentation_name@) ==> final(self).name_state(l, n)
                        == old(self).name_state(l, n)
                &&& forall|k: Seq<char>| final(self).sync_state(k) == old(self).sync_state(k)
            },
    {
        let key = chars_of(sync_id);
        let found = find_keyed(&self.by_sync_id, &key);
        if found.is_some() {
            let kept = without_key(&self.by_sync_id, &key);
            self.by_sync_id = kept;
            return found;
        }
        let lib = chars_of(library_name);
        let name = chars_of(presentation_name);
        let found = find_named(&self.by_name, &lib, &name);
        let kept = without_name(&self.by_name, &lib, &name);
        self.by_name = kept;
        found
    }
}

fn find_keyed(entries: &Vec<KeyedState>, key: &Vec<char>) -> (r: Option<RowState>)
    ensures
        r == keyed_lookup(entries@, key@),
{
    let mut r: Option<RowState> = None;
    let mut i: usize = 0;
    while i < entries.len()
        invariant
            i <= entries.len(),
            r == keyed_lookup(entries@.take(i as int), key@),
        decreases entries.len() - i,
    {
        let k = chars_of(entries[i].key.as_str());
        if chars_equal(&k, key) {
            r = Some(entries[i].state);
        }
        i = i + 1;
        assert(entries@.take(i as int).drop_last() == entries@.take(i - 1));
    }
    assert(entries@.take(entries.len() as int) == entries@);
    r
}

fn find_named(entries: &Vec<NamedState>, library: &Vec<char>, name: &Vec<char>) -> (r: Option<RowState>)
    ensures
        r == named_lookup(entries@, library@, name@),
{
    let mut r: Option<RowState> = None;
    let mut i: usize = 0;
    while i < entries.len()
        invariant
            i <= entries.len(),
            r == named_lookup(entries@.take(i as int), library@, name@),
        decreases entries.len() - i,
    {
        let l = chars_of(entries[i].library_name.as_str());
        let n = chars_of(entries[i].presentation_name.as_str());
        if chars_equal(&l, library) && chars_equal(&n, name) {
            r = Some(entries[i].state);
        }
        i = i + 1;
        assert(entries@.take(i as int).drop_last() == entries@.take(i - 1));
    }
    assert(entries@.take(entries.len() as int) == entries@);
    r
}

proof fn lemma_keyed_push_other(entries: Seq<KeyedState>, e: KeyedState, k: Seq<char>)
    requires
        e.key@ != k,
    ensures
        keyed_lookup(entries.push(e), k) == keyed_lookup(entries, k),
{
    assert(entries.push(e).drop_last() == entries);
}

fn without_key(entries: &Vec<KeyedState>, key: &Vec<char>) -> (r: Vec<KeyedState>)
    ensures
        keyed_lookup(r@, key@) is None,
        forall|k: Seq<char>| k != key@ ==> keyed_lookup(r@, k) == keyed_lookup(entries@, k),
{
    let mut r: Vec<KeyedState> = Vec::new();
    let mut i: usize = 0;
    while i < entries.len()
        invariant
            i <= entries.len(),
            keyed_lookup(r@, key@) is None,
            forall|k: Seq<char>| k != key@ ==> keyed_lookup(r@, k) == keyed_lookup(entries@.take(i as int), k),
        decreases entries.len() - i,
    {
        let k = chars_of(entries[i].key.as_str());
        let ghost prev = r@;
        assert(entries@.take(i + 1).drop_last() == entries@.take(i as int));
        if !chars_equal(&k, key) {
            r.push(KeyedState { key: entries[i].key.clone(), state: entries[i].state });
            proof {
                assert(r@.drop_last() == prev);
                lemma_keyed_push_other(prev, r@.last(), key@);
            }
        }
        proof {
            let t = entries@.take(i + 1);
            assert(t.drop_last() == entries@.take(i as int));
            assert(t.last() == entries@[i as int]);
            assert forall|kk: Seq<char>| kk != key@ implies keyed_lookup(r@, kk) == keyed_lookup(t, kk) by {
                assert(keyed_lookup(prev, kk) == keyed_lookup(entries@.take(i as int), kk));
                if r@.len() > prev.len() {
                    assert(r@.drop_last() == prev);
                    assert(r@.last().key@ == t.last().key@);
                    assert(r@.last().state == t.last().state);
                } else {
                    assert(r@ == prev);
                    assert(t.last().key@ == key@);
                }
            }
        }
        i = i + 1;
    }
    assert(entries@.take(entries.len() as int) == entries@);
    r
}

proof fn lemma_named_push_other(entries: Seq<NamedState>, e: NamedState, l: Seq<char>, n: Seq<char>)
    requires
        !(e.library_name@ == l && e.presentation_name@ == n),
    ensures
        named_lookup(entries.push(e), l, n) == named_lookup(entries, l, n),
{
    assert(entries.push(e).drop_last() == entries);
}

fn without_name(entries: &Vec<NamedState>, library: &Vec<char>, name: &Vec<char>) -> (r: Vec<NamedState>)
    ensures
        named_lookup(r@, library@, name@) is None,
        forall|l: Seq<char>, n: Seq<char>|
            !(l == library@ && n == name@) ==> named_lookup(r@, l, n) == named_lookup(entries@, l, n),
{
    let mut r: Vec<NamedState> = Vec::new();
    let mut i: usize = 0;
    while i < entries.len()
        invariant
            i <= entries.len(),
            named_lookup(r@, library@, name@) is None,
            forall|l: Seq<char>, n: Seq<char>|
                !(l == library@ && n == name@) ==> named_lookup(r@, l, n) == named_lookup(
                    entries@.take(i as int),
                    l,
                    n,
                ),
        decreases entries.len() - i,
    {
        let l = chars_of(entries[i].library_name.as_str());
        let n = chars_of(entries[i].presentation_name.as_str());
        let ghost prev = r@;
        assert(entries@.take(i + 1).drop_last() == entries@.take(i as int));
        if !(chars_equal(&l, library) && chars_equal(&n, name)) {
            r.push(
                NamedState {
                    library_name: entries[i].library_name.clone(),
                    presentation_name: entries[i].presentation_name.clone(),
                    state: entries[i].state,
                },
            );
            proof {
                assert(r@.drop_last() == prev);
                lemma_named_push_other(prev, r@.last(), library@, name@);
            }
        }
        proof {
            let t = entries@.take(i + 1);
            assert(t.drop_last() == entries@.take(i as int));
            assert(t.last() == entries@[i as int]);
            assert forall|ll: Seq<char>, nn: Seq<char>|
                !(ll == library@ && nn == name@) implies named_lookup(r@, ll, nn) == named_lookup(t, ll, nn) by {
                assert(named_lookup(prev, ll, nn) == named_lookup(entries@.take(i as int), ll, nn));
                if r@.len() > prev.len() {
                    assert(r@.drop_last() == prev);
                    assert(r@.last().library_name@ == t.last().library_name@);
                    assert(r@.last().presentation_name@ == t.last().presentation_name@);
                    assert(r@.last().state == t.last().state);
                } else {
                    assert(r@ == prev);
                    assert(t.last().library_name@ == library@ && t.last().presentation_name@ == name@);
                }
            }
        }
        i = i + 1;
    }
    assert(entries@.take(entries.len() as int) == entries@);
    r
}

/// A replaced presentation row, as the re-import reads it before deleting.
#[derive(Debug, Clone)]
pub struct OldPresentationRow {
    pub library_id: String,
    pub name: String,
    pub sync_id: String,
    pub state: RowState,
}

/// A replaced library's id and name.
#[derive(Debug, Clone)]
pub struct OldLibrary {
    pub id: String,
    pub name: String,
}

/// The name of the last library in `libraries` with id `id`.
pub open spec fn library_name_of(libraries: Seq<OldLibrary>, id: Seq<char>) -> Option<Seq<char>>
    decreases libraries.len(),
{
    if libraries.len() == 0 {
        None
    } else if libraries.last().id@ == id {
        Some(libraries.last().name@)
    } else {
        library_name_of(libraries.drop_last(), id)
    }
}

fn find_library_name(libraries: &Vec<OldLibrary>, id: &Vec<char>) -> (r: Option<usize>)
    ensures
        r is None ==> library_name_of(libraries@, id@) is None,
        r is Some ==> r->0 < libraries.len() && library_name_of(libraries@, id@) == Some(
            libraries@[r->0 as int].name@,
        ),
{
    let mut r: Option<usize> = None;
    let mut i: usize = 0;
    while i < libraries.len()
        invariant
            i <= libraries.len(),
            r is None ==> library_name_of(libraries@.take(i as int), id@) is None,
            r is Some ==> r->0 < i && library_name_of(libraries@.take(i as int), id@) == Some(
                libraries@[r->0 as int].name@,
            ),
        decreases libraries.len() - i,
    {
        let k = chars_of(libraries[i].id.as_str());
        if chars_equal(&k, id) {
            r = Some(i);
        }
        i = i + 1;
        assert(libraries@.take(i as int).drop_last() == libraries@.take(i - 1));
    }
    assert(libraries@.take(libraries.len() as int) == libraries@);
    r
}

/// The state remembered from the rows a re-import replaces: every row under
/// its sync id, and — when its library is among `libraries` — under its
/// `(library name, presentation name)`; a later row wins a shared key.
pub fn fetch_old_trash_state(rows: &Vec<OldPresentationRow>, libraries: &Vec<OldLibrary>) -> (s:
    OldTrashState)
    ensures
        forall|k: Seq<char>| s.sync_state(k) == row_sync_state(rows@, k),
        forall|l: Seq<char>, n: Seq<char>| s.name_state(l, n) == row_name_state(rows@, libraries@, l, n),
{
    let mut s = OldTrashState::empty();
    let mut i: usize = 0;
    while i < rows.len()
        invariant
            i <= rows.len(),
            forall|k: Seq<char>| s.sync_state(k) == row_sync_state(rows@.take(i as int), k),
            forall|l: Seq<char>, n: Seq<char>|
                s.name_state(l, n) == row_name_state(rows@.take(i as int), libraries@, l, n),
        decreases rows.len() - i,
    {
        let row = &rows[i];
        assert(rows@.take(i + 1).drop_last() == rows@.take(i as int));
        let lib_id = chars_of(row.library_id.as_str());
        match find_library_name(libraries, &lib_id) {
            Some(li) => {
                s.remember_name(libraries[li].name.clone(), row.name.clone(), row.state);
            },
            None => {},
        }
        s.remember_sync_id(row.sync_id.clone(), row.state);
        i = i + 1;
    }
    assert(rows@.take(rows.len() as int) == rows@);
    s
}

/// The state of the last row of `rows` with sync id `k`.
pub open spec fn row_sync_state(rows: Seq<OldPresentationRow>, k: Seq<char>) -> Option<RowState>
    decreases rows.len(),
{
    if rows.len() == 0 {
        None
    } else if rows.last().sync_id@ == k {
        Some(rows.last().state)
    } else {
        row_sync_state(rows.drop_last(), k)
    }
}

/// The state of the last row of `rows` named `n` whose library (among
/// `libraries`) is named `l`.
pub open spec fn row_name_state(
    rows: Seq<OldPresentationRow>,
    libraries: Seq<OldLibrary>,
    l: Seq<char>,
    n: Seq<char>,
) -> Option<RowState>
    decreases rows.len(),
{
    if rows.len() == 0 {
        None
    } else if library_name_of(libraries, rows.last().library_id@) == Some(l) && rows.last().name@ == n {
        Some(rows.last().state)
    } else {
        row_name_state(rows.drop_last(), libraries, l, n)
    }
}

/// The state a re-imported song is written with: the carried-over old state
/// when there is one, else live and edited now.
pub fn carried_state(taken: Option<RowState>, now: i128) -> (s: RowState)
    ensures
        taken is Some ==> s == taken->0,
        taken is None ==> s == (RowState { deleted_at: None, updated_at: now }),
{
    match taken {
        Some(state) => state,
        None => RowState { deleted_at: None, updated_at: now },
    }
}

} // verus!
