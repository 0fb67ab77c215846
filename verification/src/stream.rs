//! Stream-graphics configuration: the checks and the order plans the
//! repository applies to outputs, scenes, elements and nameplates.
use crate::error::RepositoryError;
use crate::sync::{chars_lt, lemma_text_lt_total, lemma_text_lt_transitive, name_views, text_lt};
use crate::text::{
    i64_decimal, signed_decimal, chars_equal, chars_of, decimal, extend_chars, lowercase, str_equal, string_from_chars, to_lowercase,
    trim, trim_spec, u32_decimal,
};
use vstd::prelude::*;

verus! {

/// The longest scene transition a request may ask for, in milliseconds.
pub const STREAM_TRANSITION_MAX_MS: u32 = 10000;

/// The longest nameplate text, in characters.
pub const NAMEPLATE_TEXT_MAX: usize = 200;

/// The transition a freshly created output starts with, in milliseconds.
pub const DEFAULT_OUTPUT_TRANSITION_MS: i32 = 400;

/// Whether a scene is the output's base layer or an overlay on top of it.
#[derive(Debug, Clone, Copy, PartialEq, Eq, Structural)]
pub enum SceneKind {
    Base,
    Overlay,
}

/// The scene kind a stored `kind` column names.
pub open spec fn scene_kind_of(kind: Seq<char>) -> Option<SceneKind> {
    if kind == "base"@ {
        Some(SceneKind::Base)
    } else if kind == "overlay"@ {
        Some(SceneKind::Overlay)
    } else {
        None
    }
}

/// Reads a stored scene kind.
pub fn scene_kind_from_db(kind: &str) -> (k: Option<SceneKind>)
    ensures
        k == scene_kind_of(kind@),
{
    if str_equal(kind, "base") {
        Some(SceneKind::Base)
    } else if str_equal(kind, "overlay") {
        Some(SceneKind::Overlay)
    } else {
        None
    }
}

/// The text stored for a scene kind.
pub fn scene_kind_as_str(kind: SceneKind) -> (s: &'static str)
    ensures
        kind == SceneKind::Base ==> s@ == "base"@,
        kind == SceneKind::Overlay ==> s@ == "overlay"@,
{
    match kind {
        SceneKind::Base => "base",
        SceneKind::Overlay => "overlay",
    }
}

/// The rank a scene kind sorts by: base scenes first, then overlays, then
/// anything unrecognised.
pub open spec fn kind_rank_spec(kind: Seq<char>) -> u8 {
    if kind == "base"@ {
        0
    } else if kind == "overlay"@ {
        1
    } else {
        2
    }
}

/// The rank of a stored scene kind.
pub fn kind_rank(kind: &str) -> (r: u8)
    ensures
        r == kind_rank_spec(kind@),
{
    if str_equal(kind, "base") {
        0
    } else if str_equal(kind, "overlay") {
        1
    } else {
        2
    }
}

/// Returns the counter's value and advances it by one.
pub fn next_index(counter: &mut i32) -> (current: i32)
    requires
        *old(counter) < i32::MAX,
    ensures
        current == *old(counter),
        *final(counter) == *old(counter) + 1,
{
    let current = *counter;
    *counter = *counter + 1;
    current
}

/// The message of an empty output name.
pub open spec fn empty_output_name_message() -> Seq<char> {
    "output name must be non-empty"@
}

/// An output name, trimmed; a blank one is refused.
pub fn non_empty_name(name: &str) -> (r: Result<String, RepositoryError>)
    ensures
        trim_spec(name@).len() > 0 ==> (r matches Ok(t) && t@ == trim_spec(name@)),
        trim_spec(name@).len() == 0 ==> (r matches Err(RepositoryError::Invalid(m)) && m@
            == empty_output_name_message()),
{
    let trimmed = trim(name);
    if trimmed.as_str().unicode_len() == 0 {
        let v = chars_of("output name must be non-empty");
        return Err(RepositoryError::Invalid(string_from_chars(&v)));
    }
    Ok(trimmed)
}

/// The message of a transition longer than the maximum.
pub open spec fn transition_message(ms: u32) -> Seq<char> {
    "transition "@ + decimal(ms as nat) + "ms out of range (expected <=10000)"@
}

/// A requested transition duration must not exceed
/// [`STREAM_TRANSITION_MAX_MS`].
pub fn check_transition_ms(ms: u32) -> (r: Result<(), RepositoryError>)
    ensures
        ms <= STREAM_TRANSITION_MAX_MS ==> r is Ok,
        ms > STREAM_TRANSITION_MAX_MS ==> (r matches Err(RepositoryError::Invalid(m)) && m@
            == transition_message(ms)),
{
    if ms > STREAM_TRANSITION_MAX_MS {
        let mut v = chars_of("transition ");
        let d = u32_decimal(ms);
        extend_chars(&mut v, &d);
        let tail = chars_of("ms out of range (expected <=10000)");
        extend_chars(&mut v, &tail);
        return Err(RepositoryError::Invalid(string_from_chars(&v)));
    }
    Ok(())
}

/// Whether `s` holds no value twice.
pub open spec fn no_duplicates(s: Seq<i64>) -> bool {
    forall|i: int, j: int| 0 <= i < s.len() && 0 <= j < s.len() && i != j ==> s[i] != s[j]
}

/// Whether `a` and `b` hold the same values (as sets).
pub open spec fn same_members(a: Seq<i64>, b: Seq<i64>) -> bool {
    forall|x: i64| a.contains(x) <==> b.contains(x)
}

/// Why a requested order is refused.
#[derive(Debug, Clone, Copy, PartialEq, Eq, Structural)]
pub enum OrderSetError {
    /// The request names an id twice.
    Duplicate,
    /// The request's ids are not exactly the existing ids.
    Mismatch,
}

fn contains_id(s: &Vec<i64>, x: i64, upto: usize) -> (r: bool)
    requires
        upto <= s.len(),
    ensures
        r == s@.take(upto as int).contains(x),
{
    let mut i: usize = 0;
    while i < upto
        invariant
            upto <= s.len(),
            i <= upto,
            forall|k: int| 0 <= k < i ==> s@[k] != x,
        decreases upto - i,
    {
        if s[i] == x {
            assert(s@.take(upto as int)[i as int] == x);
            return true;
        }
        i = i + 1;
    }
    assert forall|k: int| 0 <= k < upto implies s@.take(upto as int)[k] != x by {}
    false
}

/// A reorder request must name every existing id exactly once: a repeated id
/// is `Duplicate`; otherwise a set that differs from the existing one is
/// `Mismatch`.
pub fn validate_order_set(existing: &Vec<i64>, ids: &Vec<i64>) -> (r: Result<(), OrderSetError>)
    ensures
        !no_duplicates(ids@) ==> r == Err::<(), OrderSetError>(OrderSetError::Duplicate),
        no_duplicates(ids@) && !same_members(existing@, ids@) ==> r == Err::<(), OrderSetError>(
            OrderSetError::Mismatch,
        ),
        no_duplicates(ids@) && same_members(existing@, ids@) ==> r is Ok,
{
    let mut i: usize = 0;
    while i < ids.len()
        invariant
            i <= ids.len(),
            no_duplicates(ids@.take(i as int)),
        decreases ids.len() - i,
    {
        if contains_id(ids, ids[i], i) {
            proof {
                let k = choose|k: int| 0 <= k < i && ids@.take(i as int)[k] == ids@[i as int];
                assert(ids@[k] == ids@[i as int]);
            }
            return Err(OrderSetError::Duplicate);
        }
        i = i + 1;
        proof {
            assert forall|a: int, b: int|
                0 <= a < i && 0 <= b < i && a != b implies ids@.take(i as int)[a] != ids@.take(
                i as int,
            )[b] by {
                if a < i - 1 && b < i - 1 {
                    assert(ids@.take(i - 1)[a] == ids@[a]);
                    assert(ids@.take(i - 1)[b] == ids@[b]);
                } else if a == i - 1 {
                    assert(!ids@.take(i - 1).contains(ids@[i - 1]));
                    assert(ids@.take(i - 1)[b] == ids@[b]);
                } else {
                    assert(!ids@.take(i - 1).contains(ids@[i - 1]));
                    assert(ids@.take(i - 1)[a] == ids@[a]);
                }
            }
        }
    }
    assert(ids@.take(ids.len() as int) == ids@);
    let mut j: usize = 0;
    while j < existing.len()
        invariant
            j <= existing.len(),
            no_duplicates(ids@),
            forall|k: int| 0 <= k < j ==> ids@.contains(#[trigger] existing@[k]),
        decreases existing.len() - j,
    {
        if !contains_id(ids, existing[j], ids.len()) {
            assert(ids@.take(ids.len() as int) == ids@);
            return Err(OrderSetError::Mismatch);
        }
        assert(ids@.take(ids.len() as int) == ids@);
        j = j + 1;
    }
    let mut m: usize = 0;
    while m < ids.len()
        invariant
            m <= ids.len(),
            no_duplicates(ids@),
            forall|k: int| 0 <= k < m ==> existing@.contains(#[trigger] ids@[k]),
        decreases ids.len() - m,
    {
        if !contains_id(existing, ids[m], existing.len()) {
            assert(existing@.take(existing.len() as int) == existing@);
            return Err(OrderSetError::Mismatch);
        }
        assert(existing@.take(existing.len() as int) == existing@);
        m = m + 1;
    }
    proof {
        assert forall|x: i64| existing@.contains(x) <==> ids@.contains(x) by {
            if existing@.contains(x) {
                let k = choose|k: int| 0 <= k < existing@.len() && existing@[k] == x;
                assert(ids@.contains(existing@[k]));
            }
            if ids@.contains(x) {
                let k = choose|k: int| 0 <= k < ids@.len() && ids@[k] == x;
                assert(existing@.contains(ids@[k]));
            }
        }
    }
    Ok(())
}


/// A stored scene row.
#[derive(Debug, Clone)]
pub struct SceneRow {
    pub id: i32,
    pub output_id: i32,
    pub name: String,
    pub kind: String,
    pub position: i32,
    pub is_active: i32,
    pub transition_ms: Option<i32>,
}

/// A stored element row (its props stay with the caller).
#[derive(Debug, Clone)]
pub struct ElementRow {
    pub id: i32,
    pub scene_id: i32,
    pub kind: String,
    pub z_order: i32,
}

/// A stored nameplate row.
#[derive(Debug, Clone)]
pub struct NameplateRow {
    pub id: i32,
    pub output_id: i32,
    pub primary_text: String,
    pub secondary_text: String,
    pub position: i32,
}

/// One write of a reorder: the row's id and its new position.
#[derive(Debug, Clone, Copy, PartialEq, Eq, Structural)]
pub struct OrderSlot {
    pub id: i64,
    pub position: i32,
}

/// The ids of `scenes`, widened.
pub open spec fn scene_ids(scenes: Seq<SceneRow>) -> Seq<i64> {
    scenes.map_values(|s: SceneRow| s.id as i64)
}

/// The ids of `elements`, widened.
pub open spec fn element_ids(elements: Seq<ElementRow>) -> Seq<i64> {
    elements.map_values(|e: ElementRow| e.id as i64)
}

/// The ids of `plates`, widened.
pub open spec fn nameplate_ids(plates: Seq<NameplateRow>) -> Seq<i64> {
    plates.map_values(|p: NameplateRow| p.id as i64)
}

/// The recognised kind of the last scene in `scenes` whose id is `id`, if
/// there is such a scene and its kind is recognised.
pub open spec fn row_kind(scenes: Seq<SceneRow>, id: i64) -> Option<SceneKind>
    decreases scenes.len(),
{
    if scenes.len() == 0 {
        None
    } else if scenes.last().id as i64 == id {
        scene_kind_of(scenes.last().kind@)
    } else {
        row_kind(scenes.drop_last(), id)
    }
}

/// How many of `ids` name a scene of kind `k`.
pub open spec fn kind_count(scenes: Seq<SceneRow>, ids: Seq<i64>, k: SceneKind) -> nat
    decreases ids.len(),
{
    if ids.len() == 0 {
        0
    } else {
        kind_count(scenes, ids.drop_last(), k) + if row_kind(scenes, ids.last()) == Some(k) {
            1nat
        } else {
            0nat
        }
    }
}

/// The positions a scene reorder writes: each requested scene, in request
/// order, gets the number of earlier requested scenes of its own kind (base
/// and overlay scenes are numbered separately).
pub open spec fn scene_order_plan(scenes: Seq<SceneRow>, ids: Seq<i64>) -> Seq<OrderSlot>
    decreases ids.len(),
{
    if ids.len() == 0 {
        seq![]
    } else {
        let prev = scene_order_plan(scenes, ids.drop_last());
        match row_kind(scenes, ids.last()) {
            Some(k) => prev.push(
                OrderSlot { id: ids.last(), position: kind_count(scenes, ids.drop_last(), k) as i32 },
            ),
            None => prev,
        }
    }
}

/// Whether some row of `s` (a list of ids) has id `id`.
pub open spec fn has_id(s: Seq<i64>, id: i64) -> bool {
    s.contains(id)
}

/// The positions a list reorder writes: each requested id that names an
/// existing row, in request order, gets the count of such ids before it.
pub open spec fn dense_order_plan(existing: Seq<i64>, ids: Seq<i64>) -> Seq<OrderSlot>
    decreases ids.len(),
{
    if ids.len() == 0 {
        seq![]
    } else {
        let prev = dense_order_plan(existing, ids.drop_last());
        if existing.contains(ids.last()) {
            prev.push(OrderSlot { id: ids.last(), position: prev.len() as i32 })
        } else {
            prev
        }
    }
}

/// The positions a nameplate reorder writes: each requested id that names an
/// existing plate gets its index in the request.
pub open spec fn indexed_order_plan(existing: Seq<i64>, ids: Seq<i64>) -> Seq<OrderSlot>
    decreases ids.len(),
{
    if ids.len() == 0 {
        seq![]
    } else {
        let prev = indexed_order_plan(existing, ids.drop_last());
        if existing.contains(ids.last()) {
            prev.push(OrderSlot { id: ids.last(), position: (ids.len() - 1) as i32 })
        } else {
            prev
        }
    }
}

proof fn lemma_known_ids_enumerate(existing: Seq<i64>, ids: Seq<i64>)
    requires
        forall|i: int| 0 <= i < ids.len() ==> existing.contains(#[trigger] ids[i]),
        ids.len() < i32::MAX,
    ensures
        dense_order_plan(existing, ids).len() == ids.len(),
        indexed_order_plan(existing, ids) == dense_order_plan(existing, ids),
        forall|i: int|
            0 <= i < ids.len() ==> #[trigger] dense_order_plan(existing, ids)[i] == (OrderSlot {
                id: ids[i],
                position: i as i32,
            }),
    decreases ids.len(),
{
    if ids.len() > 0 {
        let prefix = ids.drop_last();
        assert forall|i: int| 0 <= i < prefix.len() implies existing.contains(#[trigger] prefix[i]) by {
            assert(prefix[i] == ids[i]);
        }
        lemma_known_ids_enumerate(existing, prefix);
        assert(existing.contains(ids[ids.len() - 1]));
        let plan = dense_order_plan(existing, ids);
        assert forall|i: int| 0 <= i < ids.len() implies #[trigger] plan[i] == (OrderSlot {
            id: ids[i],
            position: i as i32,
        }) by {
            if i < prefix.len() {
                assert(plan[i] == dense_order_plan(existing, prefix)[i]);
                assert(prefix[i] == ids[i]);
            }
        }
    }
}

/// A reorder that passes validation numbers the requested ids 0, 1, 2, ...
/// in request order, and the element and the nameplate numbering agree.
pub proof fn lemma_valid_order_is_enumeration(existing: Seq<i64>, ids: Seq<i64>)
    requires
        same_members(existing, ids),
        ids.len() < i32::MAX,
    ensures
        dense_order_plan(existing, ids).len() == ids.len(),
        indexed_order_plan(existing, ids) == dense_order_plan(existing, ids),
        forall|i: int|
            0 <= i < ids.len() ==> #[trigger] dense_order_plan(existing, ids)[i] == (OrderSlot {
                id: ids[i],
                position: i as i32,
            }),
{
    assert forall|i: int| 0 <= i < ids.len() implies existing.contains(#[trigger] ids[i]) by {
        assert(ids.contains(ids[i]));
    }
    lemma_known_ids_enumerate(existing, ids);
}

/// The refusal of an invalid reorder, with the domain's messages.
pub open spec fn order_error_spec(
    ids: Seq<i64>,
    existing: Seq<i64>,
    duplicate_msg: Seq<char>,
    mismatch_msg: Seq<char>,
) -> Option<Seq<char>> {
    if !no_duplicates(ids) {
        Some(duplicate_msg)
    } else if !same_members(existing, ids) {
        Some(mismatch_msg)
    } else {
        None
    }
}

fn invalid_message(msg: &str) -> (e: RepositoryError)
    ensures
        e matches RepositoryError::Invalid(m) && m@ == msg@,
{
    let v = chars_of(msg);
    RepositoryError::Invalid(string_from_chars(&v))
}

fn ids_of_scenes(scenes: &Vec<SceneRow>) -> (v: Vec<i64>)
    ensures
        v@ == scene_ids(scenes@),
{
    let mut v: Vec<i64> = Vec::new();
    let mut i: usize = 0;
    while i < scenes.len()
        invariant
            i <= scenes.len(),
            v@ == scene_ids(scenes@.take(i as int)),
        decreases scenes.len() - i,
    {
        v.push(scenes[i].id as i64);
        i = i + 1;
        assert(scene_ids(scenes@.take(i as int)) =~= scene_ids(scenes@.take(i - 1)).push(
            scenes@[i - 1].id as i64,
        ));
    }
    assert(scenes@.take(scenes.len() as int) == scenes@);
    v
}

fn ids_of_elements(elements: &Vec<ElementRow>) -> (v: Vec<i64>)
    ensures
        v@ == element_ids(elements@),
{
    let mut v: Vec<i64> = Vec::new();
    let mut i: usize = 0;
    while i < elements.len()
        invariant
            i <= elements.len(),
            v@ == element_ids(elements@.take(i as int)),
        decreases elements.len() - i,
    {
        v.push(elements[i].id as i64);
        i = i + 1;
        assert(element_ids(elements@.take(i as int)) =~= element_ids(elements@.take(i - 1)).push(
            elements@[i - 1].id as i64,
        ));
    }
    assert(elements@.take(elements.len() as int) == elements@);
    v
}

fn ids_of_nameplates(plates: &Vec<NameplateRow>) -> (v: Vec<i64>)
    ensures
        v@ == nameplate_ids(plates@),
{
    let mut v: Vec<i64> = Vec::new();
    let mut i: usize = 0;
    while i < plates.len()
        invariant
            i <= plates.len(),
            v@ == nameplate_ids(plates@.take(i as int)),
        decreases plates.len() - i,
    {
        v.push(plates[i].id as i64);
        i = i + 1;
        assert(nameplate_ids(plates@.take(i as int)) =~= nameplate_ids(plates@.take(i - 1)).push(
            plates@[i - 1].id as i64,
        ));
    }
    assert(plates@.take(plates.len() as int) == plates@);
    v
}

fn lookup_kind(scenes: &Vec<SceneRow>, id: i64) -> (k: Option<SceneKind>)
    ensures
        k == row_kind(scenes@, id),
{
    let mut k: Option<SceneKind> = None;
    let mut j: usize = 0;
    while j < scenes.len()
        invariant
            j <= scenes.len(),
            k == row_kind(scenes@.take(j as int), id),
        decreases scenes.len() - j,
    {
        if scenes[j].id as i64 == id {
            k = scene_kind_from_db(scenes[j].kind.as_str());
        }
        j = j + 1;
        assert(scenes@.take(j as int).drop_last() == scenes@.take(j - 1));
    }
    assert(scenes@.take(scenes.len() as int) == scenes@);
    k
}

proof fn lemma_kind_count_bound(scenes: Seq<SceneRow>, ids: Seq<i64>, k: SceneKind)
    ensures
        kind_count(scenes, ids, k) <= ids.len(),
    decreases ids.len(),
{
    if ids.len() > 0 {
        lemma_kind_count_bound(scenes, ids.drop_last(), k);
    }
}

/// Plans a scene reorder: `ids` must be exactly the output's scene ids
/// (refused as `Invalid` otherwise); the plan numbers base and overlay
/// scenes separately, in request order.
pub fn plan_scene_order(scenes: &Vec<SceneRow>, ids: &Vec<i64>) -> (r: Result<
    Vec<OrderSlot>,
    RepositoryError,
>)
    requires
        ids.len() < i32::MAX,
    ensures
        match order_error_spec(
            ids@,
            scene_ids(scenes@),
            "scene order contains duplicate ids"@,
            "scene order id set does not match this output's scenes"@,
        ) {
            Some(msg) => r matches Err(RepositoryError::Invalid(m)) && m@ == msg,
            None => r matches Ok(plan) && plan@ == scene_order_plan(scenes@, ids@),
        },
{
    let existing = ids_of_scenes(scenes);
    match validate_order_set(&existing, ids) {
        Err(OrderSetError::Duplicate) => {
            return Err(invalid_message("scene order contains duplicate ids"));
        },
        Err(OrderSetError::Mismatch) => {
            return Err(invalid_message("scene order id set does not match this output's scenes"));
        },
        Ok(()) => {},
    }
    let mut base_pos: i32 = 0;
    let mut overlay_pos: i32 = 0;
    let mut plan: Vec<OrderSlot> = Vec::new();
    let mut i: usize = 0;
    while i < ids.len()
        invariant
            ids.len() < i32::MAX,
            i <= ids.len(),
            base_pos as int == kind_count(scenes@, ids@.take(i as int), SceneKind::Base),
            overlay_pos as int == kind_count(scenes@, ids@.take(i as int), SceneKind::Overlay),
            plan@ == scene_order_plan(scenes@, ids@.take(i as int)),
        decreases ids.len() - i,
    {
        proof {
            lemma_kind_count_bound(scenes@, ids@.take(i as int), SceneKind::Base);
            lemma_kind_count_bound(scenes@, ids@.take(i as int), SceneKind::Overlay);
        }
        let id = ids[i];
        let kind = lookup_kind(scenes, id);
        assert(ids@.take(i + 1).drop_last() == ids@.take(i as int));
        match kind {
            Some(SceneKind::Base) => {
                let position = next_index(&mut base_pos);
                plan.push(OrderSlot { id, position });
            },
            Some(SceneKind::Overlay) => {
                let position = next_index(&mut overlay_pos);
                plan.push(OrderSlot { id, position });
            },
            None => {},
        }
        i = i + 1;
    }
    assert(ids@.take(ids.len() as int) == ids@);
    Ok(plan)
}

/// Plans an element reorder: `ids` must be exactly the scene's element ids
/// (refused as `Invalid` otherwise); z-order is rewritten `0..n` in request
/// order.
pub fn plan_element_order(elements: &Vec<ElementRow>, ids: &Vec<i64>) -> (r: Result<
    Vec<OrderSlot>,
    RepositoryError,
>)
    requires
        ids.len() < i32::MAX,
    ensures
        match order_error_spec(
            ids@,
            element_ids(elements@),
            "element order contains duplicate ids"@,
            "element order id set does not match this scene's elements"@,
        ) {
            Some(msg) => r matches Err(RepositoryError::Invalid(m)) && m@ == msg,
            None => r matches Ok(plan) && plan@ == dense_order_plan(element_ids(elements@), ids@),
        },
{
    let existing = ids_of_elements(elements);
    match validate_order_set(&existing, ids) {
        Err(OrderSetError::Duplicate) => {
            return Err(invalid_message("element order contains duplicate ids"));
        },
        Err(OrderSetError::Mismatch) => {
            return Err(
                invalid_message("element order id set does not match this scene's elements"),
            );
        },
        Ok(()) => {},
    }
    let plan = dense_plan(&existing, ids);
    Ok(plan)
}

proof fn lemma_dense_len(existing: Seq<i64>, ids: Seq<i64>)
    ensures
        dense_order_plan(existing, ids).len() <= ids.len(),
    decreases ids.len(),
{
    if ids.len() > 0 {
        lemma_dense_len(existing, ids.drop_last());
    }
}

fn dense_plan(existing: &Vec<i64>, ids: &Vec<i64>) -> (plan: Vec<OrderSlot>)
    requires
        ids.len() < i32::MAX,
    ensures
        plan@ == dense_order_plan(existing@, ids@),
{
    let mut z: i32 = 0;
    let mut plan: Vec<OrderSlot> = Vec::new();
    let mut i: usize = 0;
    while i < ids.len()
        invariant
            ids.len() < i32::MAX,
            i <= ids.len(),
            plan@ == dense_order_plan(existing@, ids@.take(i as int)),
            z as int == plan@.len(),
        decreases ids.len() - i,
    {
        proof {
            lemma_dense_len(existing@, ids@.take(i as int));
        }
        let id = ids[i];
        assert(ids@.take(i + 1).drop_last() == ids@.take(i as int));
        if contains_id(existing, id, existing.len()) {
            assert(existing@.take(existing.len() as int) == existing@);
            let position = next_index(&mut z);
            plan.push(OrderSlot { id, position });
        } else {
            assert(existing@.take(existing.len() as int) == existing@);
        }
        i = i + 1;
    }
    assert(ids@.take(ids.len() as int) == ids@);
    plan
}

/// Plans a nameplate reorder: `ids` must be exactly the output's plate ids
/// (refused as `Invalid` otherwise); each plate's position is its index in
/// the request.
pub fn plan_nameplate_order(plates: &Vec<NameplateRow>, ids: &Vec<i64>) -> (r: Result<
    Vec<OrderSlot>,
    RepositoryError,
>)
    requires
        ids.len() < i32::MAX,
    ensures
        match order_error_spec(
            ids@,
            nameplate_ids(plates@),
            "nameplate order contains duplicate ids"@,
            "nameplate order id set does not match"@,
        ) {
            Some(msg) => r matches Err(RepositoryError::Invalid(m)) && m@ == msg,
            None => r matches Ok(plan) && plan@ == indexed_order_plan(nameplate_ids(plates@), ids@),
        },
{
    let existing = ids_of_nameplates(plates);
    match validate_order_set(&existing, ids) {
        Err(OrderSetError::Duplicate) => {
            return Err(invalid_message("nameplate order contains duplicate ids"));
        },
        Err(OrderSetError::Mismatch) => {
            return Err(invalid_message("nameplate order id set does not match"));
        },
        Ok(()) => {},
    }
    let mut plan: Vec<OrderSlot> = Vec::new();
    let mut i: usize = 0;
    while i < ids.len()
        invariant
            ids.len() < i32::MAX,
            i <= ids.len(),
            plan@ == indexed_order_plan(existing@, ids@.take(i as int)),
        decreases ids.len() - i,
    {
        let id = ids[i];
        assert(ids@.take(i + 1).drop_last() == ids@.take(i as int));
        if contains_id(&existing, id, existing.len()) {
            assert(existing@.take(existing.len() as int) == existing@);
            plan.push(OrderSlot { id, position: i as i32 });
        } else {
            assert(existing@.take(existing.len() as int) == existing@);
        }
        i = i + 1;
    }
    assert(ids@.take(ids.len() as int) == ids@);
    Ok(plan)
}


/// The largest of `s`, or `-1` for none.
pub open spec fn max_or_minus_one(s: Seq<i32>) -> int
    decreases s.len(),
{
    if s.len() == 0 {
        -1
    } else {
        let m = max_or_minus_one(s.drop_last());
        if s.last() > m {
            s.last() as int
        } else {
            m
        }
    }
}

proof fn lemma_max_bounds(s: Seq<i32>)
    ensures
        forall|i: int| 0 <= i < s.len() ==> s[i] <= max_or_minus_one(s),
        max_or_minus_one(s) == -1 || s.contains(max_or_minus_one(s) as i32),
        -1 <= max_or_minus_one(s) <= i32::MAX,
    decreases s.len(),
{
    if s.len() > 0 {
        lemma_max_bounds(s.drop_last());
        let m = max_or_minus_one(s.drop_last());
        if m != -1 && !(s.last() > m) {
            let k = choose|k: int| 0 <= k < s.drop_last().len() && s.drop_last()[k] == m as i32;
            assert(s[k] == m as i32);
        }
        if s.last() > m {
            assert(s[s.len() - 1] == s.last());
        }
        assert forall|i: int| 0 <= i < s.len() implies s[i] <= max_or_minus_one(s) by {
            if i < s.len() - 1 {
                assert(s[i] == s.drop_last()[i]);
            }
        }
    }
}

/// The position or z-order a new scene, element or nameplate is appended
/// at: one past the largest existing one, or 0 in an empty list.
pub fn next_position(positions: &Vec<i32>) -> (p: i32)
    requires
        forall|i: int| 0 <= i < positions.len() ==> positions@[i] < i32::MAX,
    ensures
        p == max_or_minus_one(positions@) + 1,
        forall|i: int| 0 <= i < positions.len() ==> positions@[i] < p,
{
    let mut m: i32 = -1;
    let mut i: usize = 0;
    while i < positions.len()
        invariant
            i <= positions.len(),
            m == max_or_minus_one(positions@.take(i as int)),
            forall|k: int| 0 <= k < positions.len() ==> positions@[k] < i32::MAX,
        decreases positions.len() - i,
    {
        assert(positions@.take(i + 1).drop_last() == positions@.take(i as int));
        if positions[i] > m {
            m = positions[i];
        }
        i = i + 1;
    }
    assert(positions@.take(positions.len() as int) == positions@);
    proof {
        lemma_max_bounds(positions@);
        if m != -1 {
            let k = choose|k: int| 0 <= k < positions@.len() && positions@[k] == m;
        }
    }
    m + 1
}

/// Whether another scene of `scenes` (not `exclude`) has the same name,
/// compared case-insensitively.
pub open spec fn scene_name_clash(scenes: Seq<SceneRow>, name: Seq<char>, exclude: Option<i32>) -> bool {
    exists|i: int|
        0 <= i < scenes.len() && Some(scenes[i].id) != exclude && lowercase(#[trigger] scenes[i].name@)
            == lowercase(name)
}

/// A scene name must be unique within its output, case-insensitively; the
/// scene being renamed (`exclude`) does not clash with itself.
pub fn ensure_scene_name_unique(scenes: &Vec<SceneRow>, name: &str, exclude: Option<i32>) -> (r: Result<
    (),
    RepositoryError,
>)
    ensures
        scene_name_clash(scenes@, name@, exclude) ==> r == Err::<(), RepositoryError>(
            RepositoryError::Conflict("scene name already exists in this output"),
        ),
        !scene_name_clash(scenes@, name@, exclude) ==> r is Ok,
{
    let target = to_lowercase(name);
    let t = chars_of(target.as_str());
    let mut i: usize = 0;
    while i < scenes.len()
        invariant
            i <= scenes.len(),
            t@ == lowercase(name@),
            forall|k: int|
                0 <= k < i ==> !(Some(scenes@[k].id) != exclude && lowercase(#[trigger] scenes@[k].name@)
                    == lowercase(name@)),
        decreases scenes.len() - i,
    {
        let lower = to_lowercase(scenes[i].name.as_str());
        let l = chars_of(lower.as_str());
        let other = match exclude {
            Some(x) => scenes[i].id != x,
            None => true,
        };
        if other && chars_equal(&l, &t) {
            return Err(RepositoryError::Conflict("scene name already exists in this output"));
        }
        i = i + 1;
    }
    Ok(())
}

/// A scene id from a request as a stored (32-bit) id; an id outside `i32`
/// can never name a row.
pub fn row_id(id: i64) -> (r: Option<i32>)
    ensures
        (i32::MIN <= id <= i32::MAX) ==> r == Some(id as i32),
        !(i32::MIN <= id <= i32::MAX) ==> r is None,
{
    if id < -2147483648 || id > 2147483647 {
        None
    } else {
        Some(id as i32)
    }
}

/// The active base scene a request sets on an output. Clearing it is always
/// allowed; setting it needs the scene (`found`, looked up by id) to exist
/// (`TargetNotFound`), to belong to this output and to be a base scene
/// (`Invalid`).
pub fn resolve_active_scene(output_id: i32, requested: Option<i64>, found: Option<&SceneRow>) -> (r: Result<
    Option<i32>,
    RepositoryError,
>)
    ensures
        requested is None ==> r == Ok::<Option<i32>, RepositoryError>(None),
        requested is Some && found is None ==> r == Err::<Option<i32>, RepositoryError>(
            RepositoryError::TargetNotFound("scene not found"),
        ),
        requested is Some && found is Some && found->0.output_id != output_id ==> (r matches Err(
            RepositoryError::Invalid(m),
        ) && m@ == "scene does not belong to this output"@),
        requested is Some && found is Some && found->0.output_id == output_id && scene_kind_of(
            found->0.kind@,
        ) != Some(SceneKind::Base) ==> (r matches Err(RepositoryError::Invalid(m)) && m@
            == "scene is not a base scene"@),
        requested is Some && found is Some && found->0.output_id == output_id && scene_kind_of(
            found->0.kind@,
        ) == Some(SceneKind::Base) ==> r == Ok::<Option<i32>, RepositoryError>(
            Some(requested->0 as i32),
        ),
{
    match requested {
        None => Ok(None),
        Some(sid) => {
            let scene = match found {
                Some(s) => s,
                None => {
                    return Err(RepositoryError::TargetNotFound("scene not found"));
                },
            };
            if scene.output_id != output_id {
                return Err(invalid_message("scene does not belong to this output"));
            }
            if scene_kind_from_db(scene.kind.as_str()) != Some(SceneKind::Base) {
                return Err(invalid_message("scene is not a base scene"));
            }
            Ok(Some(sid as i32))
        },
    }
}

/// Toggling an overlay needs the scene (`found`) to exist
/// (`TargetNotFound`), to belong to this output and to be an overlay
/// (`Invalid`); the stored flag is then 1 or 0.
pub fn resolve_overlay_toggle(output_id: i32, found: Option<&SceneRow>, active: bool) -> (r: Result<
    i32,
    RepositoryError,
>)
    ensures
        found is None ==> r == Err::<i32, RepositoryError>(
            RepositoryError::TargetNotFound("scene not found"),
        ),
        found is Some && found->0.output_id != output_id ==> (r matches Err(
            RepositoryError::Invalid(m),
        ) && m@ == "scene does not belong to this output"@),
        found is Some && found->0.output_id == output_id && scene_kind_of(found->0.kind@) != Some(
            SceneKind::Overlay,
        ) ==> (r matches Err(RepositoryError::Invalid(m)) && m@ == "scene is not an overlay scene"@),
        found is Some && found->0.output_id == output_id && scene_kind_of(found->0.kind@) == Some(
            SceneKind::Overlay,
        ) ==> r == Ok::<i32, RepositoryError>(if active { 1i32 } else { 0i32 }),
{
    let scene = match found {
        Some(s) => s,
        None => {
            return Err(RepositoryError::TargetNotFound("scene not found"));
        },
    };
    if scene.output_id != output_id {
        return Err(invalid_message("scene does not belong to this output"));
    }
    if scene_kind_from_db(scene.kind.as_str()) != Some(SceneKind::Overlay) {
        return Err(invalid_message("scene is not an overlay scene"));
    }
    Ok(if active { 1 } else { 0 })
}

/// Deleting the output's active base scene clears the activation.
pub fn delete_clears_activation(active_scene_id: Option<i32>, scene_id: i32) -> (b: bool)
    ensures
        b == (active_scene_id == Some(scene_id)),
{
    match active_scene_id {
        Some(a) => a == scene_id,
        None => false,
    }
}

/// The configuration revision after one more config write.
pub fn next_config_revision(revision: i32) -> (r: i32)
    requires
        revision < i32::MAX,
    ensures
        r == revision + 1,
{
    revision + 1
}

/// A stored stream output row.
#[derive(Debug, Clone)]
pub struct OutputRow {
    pub id: i32,
    pub slug: String,
    pub name: String,
    pub default_transition_ms: i32,
    pub active_scene_id: Option<i32>,
    pub config_revision: i32,
}

/// What an output reports about itself.
#[derive(Debug, Clone)]
pub struct StreamOutputSummary {
    pub id: i64,
    pub slug: String,
    pub name: String,
    pub default_transition_ms: u32,
    pub active_scene_id: Option<i64>,
    pub config_revision: u64,
}

/// A stored count read back: negative values read as 0.
pub open spec fn non_negative(v: i32) -> nat {
    if v < 0 {
        0
    } else {
        v as nat
    }
}

/// The summary of an output row; negative stored counts read as 0.
pub fn output_summary(row: &OutputRow) -> (s: StreamOutputSummary)
    ensures
        s.id == row.id as i64,
        s.slug@ == row.slug@,
        s.name@ == row.name@,
        s.default_transition_ms as nat == non_negative(row.default_transition_ms),
        s.active_scene_id == match row.active_scene_id {
            Some(v) => Some(v as i64),
            None => None::<i64>,
        },
        s.config_revision as nat == non_negative(row.config_revision),
{
    StreamOutputSummary {
        id: row.id as i64,
        slug: row.slug.clone(),
        name: row.name.clone(),
        default_transition_ms: if row.default_transition_ms < 0 {
            0
        } else {
            row.default_transition_ms as u32
        },
        active_scene_id: match row.active_scene_id {
            Some(v) => Some(v as i64),
            None => None,
        },
        config_revision: if row.config_revision < 0 {
            0
        } else {
            row.config_revision as u64
        },
    }
}

/// The persisted activation of an output: its active base scene, its active
/// overlays in the given (position, id) order, and its config revision.
#[derive(Debug, Clone)]
pub struct StreamShowState {
    pub active_scene_id: Option<i64>,
    pub active_overlay_ids: Vec<i64>,
    pub config_revision: u64,
}

/// The show state of an output whose active overlays (already ordered) are
/// `active_overlays`.
pub fn show_state(output: &OutputRow, active_overlays: &Vec<SceneRow>) -> (s: StreamShowState)
    ensures
        s.active_scene_id == match output.active_scene_id {
            Some(v) => Some(v as i64),
            None => None::<i64>,
        },
        s.active_overlay_ids@ == scene_ids(active_overlays@),
        s.config_revision as nat == non_negative(output.config_revision),
{
    StreamShowState {
        active_scene_id: match output.active_scene_id {
            Some(v) => Some(v as i64),
            None => None,
        },
        active_overlay_ids: ids_of_scenes(active_overlays),
        config_revision: if output.config_revision < 0 {
            0
        } else {
            output.config_revision as u64
        },
    }
}

/// What a scene reports about itself (its elements travel separately).
#[derive(Debug, Clone)]
pub struct StreamSceneHeader {
    pub id: i64,
    pub name: String,
    pub kind: SceneKind,
    pub position: i32,
    pub is_active: bool,
    pub transition_ms: Option<u32>,
}

/// The header of a scene row, or nothing when its kind is unrecognised.
pub fn scene_header(row: &SceneRow) -> (h: Option<StreamSceneHeader>)
    ensures
        scene_kind_of(row.kind@) is None ==> h is None,
        scene_kind_of(row.kind@) is Some ==> (h matches Some(x) && x.id == row.id as i64 && x.name@
            == row.name@ && x.kind == scene_kind_of(row.kind@)->0 && x.position == row.position
            && x.is_active == (row.is_active != 0) && x.transition_ms == match row.transition_ms {
            Some(v) => Some(v as u32),
            None => None::<u32>,
        }),
{
    let kind = match scene_kind_from_db(row.kind.as_str()) {
        Some(k) => k,
        None => {
            return None;
        },
    };
    Some(
        StreamSceneHeader {
            id: row.id as i64,
            name: row.name.clone(),
            kind,
            position: row.position,
            is_active: row.is_active != 0,
            transition_ms: match row.transition_ms {
                Some(v) => Some(v as u32),
                None => None,
            },
        },
    )
}

/// The message of a blank required nameplate text.
pub open spec fn nameplate_empty_message(field: Seq<char>) -> Seq<char> {
    field + " must be non-empty"@
}

/// The message of an overlong nameplate text.
pub open spec fn nameplate_long_message(field: Seq<char>) -> Seq<char> {
    field + " must be at most 200 characters"@
}

/// A nameplate text, trimmed: blank is refused unless `allow_empty`, and more
/// than [`NAMEPLATE_TEXT_MAX`] characters is refused.
pub fn validate_nameplate_text(field: &str, value: &str, allow_empty: bool) -> (r: Result<
    String,
    RepositoryError,
>)
    ensures
        !allow_empty && trim_spec(value@).len() == 0 ==> (r matches Err(RepositoryError::Invalid(m))
            && m@ == nameplate_empty_message(field@)),
        !(!allow_empty && trim_spec(value@).len() == 0) && trim_spec(value@).len() > 200 ==> (r matches Err(
            RepositoryError::Invalid(m),
        ) && m@ == nameplate_long_message(field@)),
        !(!allow_empty && trim_spec(value@).len() == 0) && trim_spec(value@).len() <= 200 ==> (r matches Ok(
            t,
        ) && t@ == trim_spec(value@)),
{
    let trimmed = trim(value);
    let n = trimmed.as_str().unicode_len();
    if !allow_empty && n == 0 {
        let mut v = chars_of(field);
        let tail = chars_of(" must be non-empty");
        extend_chars(&mut v, &tail);
        return Err(RepositoryError::Invalid(string_from_chars(&v)));
    }
    if n > NAMEPLATE_TEXT_MAX {
        let mut v = chars_of(field);
        let tail = chars_of(" must be at most 200 characters");
        extend_chars(&mut v, &tail);
        return Err(RepositoryError::Invalid(string_from_chars(&v)));
    }
    Ok(trimmed)
}


/// The message of a stored size outside `0..=i32::MAX`.
pub open spec fn size_message(what: Seq<char>, size: i64) -> Seq<char> {
    what + " size "@ + signed_decimal(size as int) + " out of range"@
}

/// An uploaded file's size must fit the stored 32-bit column; `what` names
/// the upload kind (`asset`, `font`) in the refusal.
pub fn check_upload_size(what: &str, size_bytes: i64) -> (r: Result<i32, RepositoryError>)
    ensures
        0 <= size_bytes <= i32::MAX ==> r == Ok::<i32, RepositoryError>(size_bytes as i32),
        !(0 <= size_bytes <= i32::MAX) ==> (r matches Err(RepositoryError::Invalid(m)) && m@
            == size_message(what@, size_bytes)),
{
    if size_bytes < 0 || size_bytes > 2147483647 {
        let mut v = chars_of(what);
        let mid = chars_of(" size ");
        extend_chars(&mut v, &mid);
        let d = i64_decimal(size_bytes);
        extend_chars(&mut v, &d);
        let tail = chars_of(" out of range");
        extend_chars(&mut v, &tail);
        return Err(RepositoryError::Invalid(string_from_chars(&v)));
    }
    Ok(size_bytes as i32)
}

/// Whether `s` is in strictly increasing text order.
pub open spec fn strictly_sorted(s: Seq<Seq<char>>) -> bool {
    forall|i: int, j: int| 0 <= i < j < s.len() ==> text_lt(s[i], s[j])
}

/// Sorts `names` and drops repeats, in code-point text order.
pub fn sorted_unique_names(names: &Vec<String>) -> (r: Vec<String>)
    ensures
        strictly_sorted(name_views(r@)),
        forall|x: Seq<char>| name_views(r@).contains(x) <==> name_views(names@).contains(x),
{
    let mut out: Vec<String> = Vec::new();
    let mut i: usize = 0;
    while i < names.len()
        invariant
            i <= names.len(),
            strictly_sorted(name_views(out@)),
            forall|x: Seq<char>| name_views(out@).contains(x) <==> name_views(names@.take(i as int)).contains(x),
        decreases names.len() - i,
    {
        let x = chars_of(names[i].as_str());
        assert(name_views(names@.take(i + 1)) =~= name_views(names@.take(i as int)).push(names@[i as int]@));
        // find insertion point: first index whose name is not below x
        let mut j: usize = 0;
        let mut stop = false;
        while j < out.len() && !stop
            invariant
                j <= out.len(),
                x@ == names@[i as int]@,
                i < names.len(),
                strictly_sorted(name_views(out@)),
                forall|y: Seq<char>| name_views(out@).contains(y) <==> name_views(names@.take(i as int)).contains(y),
                forall|k: int| 0 <= k < j ==> text_lt(name_views(out@)[k], x@),
                stop ==> j < out.len() && !text_lt(name_views(out@)[j as int], x@),
            decreases out.len() - j + if stop { 0int } else { 1int },
        {
            let c = chars_of(out[j].as_str());
            if chars_lt(&c, &x) {
                j = j + 1;
            } else {
                stop = true;
            }
        }
        let ghost before = name_views(out@);
        let present = if j < out.len() {
            let c = chars_of(out[j].as_str());
            chars_equal(&c, &x)
        } else {
            false
        };
        if present {
            proof {
                assert(before[j as int] == x@);
                let ti = name_views(names@.take(i as int));
                let tn = name_views(names@.take(i + 1));
                assert(tn =~= ti.push(x@));
                assert forall|y: Seq<char>| before.contains(y) <==> tn.contains(y) by {
                    if y == x@ {
                        assert(tn[i as int] == y);
                        assert(before.contains(before[j as int]));
                    } else {
                        if tn.contains(y) {
                            let k = choose|k: int| 0 <= k < tn.len() && #[trigger] tn[k] == y;
                            assert(ti[k] == y);
                            assert(ti.contains(y));
                        }
                        if before.contains(y) {
                            assert(ti.contains(y));
                            let k = choose|k: int| 0 <= k < ti.len() && #[trigger] ti[k] == y;
                            assert(tn[k] == y);
                        }
                    }
                }
            }
        } else {
            proof {
                if j < out.len() {
                    lemma_text_lt_total(x@, before[j as int]);
                }
            }
            assert(forall|y: Seq<char>| before.contains(y) <==> name_views(names@.take(i as int)).contains(y));
            out.insert(j, String::from_str(names[i].as_str()));
            proof {
                let after = name_views(out@);
                assert(after =~= before.insert(j as int, x@));
                assert forall|a: int, b: int| 0 <= a < b < after.len() implies text_lt(after[a], after[b]) by {
                    if j < before.len() {
                        assert(text_lt(x@, before[j as int]));
                    }
                    if b == j as int {
                        assert(text_lt(before[a], x@));
                    } else if a == j as int {
                        if b - 1 > j as int {
                            lemma_text_lt_transitive(x@, before[j as int], before[b - 1]);
                        }
                    } else if a < j as int && b > j as int {
                        assert(text_lt(before[a], before[b - 1]));
                    } else if a > j as int {
                        assert(text_lt(before[a - 1], before[b - 1]));
                    }
                }
                let ti = name_views(names@.take(i as int));
                let tn = name_views(names@.take(i + 1));
                assert(tn =~= ti.push(x@));
                assert forall|y: Seq<char>| after.contains(y) <==> tn.contains(y) by {
                    if after.contains(y) {
                        let k = choose|k: int| 0 <= k < after.len() && after[k] == y;
                        if k == j as int {
                            assert(tn[i as int] == y);
                        } else {
                            let q = if k < j as int { k } else { k - 1 };
                            assert(before[q] == y);
                            assert(before.contains(y));
                            assert(ti.contains(y));
                            let m = choose|m: int| 0 <= m < ti.len() && #[trigger] ti[m] == y;
                            assert(tn[m] == y);
                        }
                    }
                    if tn.contains(y) {
                        let k = choose|k: int| 0 <= k < tn.len() && #[trigger] tn[k] == y;
                        if k < i {
                            assert(ti[k] == y);
                            assert(ti.contains(y));
                            assert(before.contains(y));
                            let q = choose|q: int| 0 <= q < before.len() && before[q] == y;
                            if q < j as int {
                                assert(after[q] == y);
                            } else {
                                assert(after[q + 1] == y);
                            }
                        } else {
                            assert(after[j as int] == y);
                        }
                    }
                }
            }
        }
        i = i + 1;
    }
    assert(names@.take(names.len() as int) == names@);
    out
}


/// `names` joined with `", "`.
pub open spec fn join_comma(names: Seq<Seq<char>>) -> Seq<char>
    decreases names.len(),
{
    if names.len() == 0 {
        seq![]
    } else if names.len() == 1 {
        names[0]
    } else {
        join_comma(names.drop_last()) + ", "@ + names.last()
    }
}

fn join_names(names: &Vec<String>) -> (r: Vec<char>)
    ensures
        r@ == join_comma(name_views(names@)),
{
    let mut out: Vec<char> = Vec::new();
    let mut i: usize = 0;
    while i < names.len()
        invariant
            i <= names.len(),
            out@ == join_comma(name_views(names@).take(i as int)),
        decreases names.len() - i,
    {
        let ghost v = name_views(names@);
        assert(v.take(i + 1).drop_last() == v.take(i as int));
        if i > 0 {
            let sep = chars_of(", ");
            extend_chars(&mut out, &sep);
        }
        let c = chars_of(names[i].as_str());
        extend_chars(&mut out, &c);
        proof {
            if i == 0 {
                assert(v.take(1) =~= seq![names@[0]@]);
                assert(out@ =~= names@[0]@);
            } else {
                assert(v.take(i + 1).last() == names@[i as int]@);
            }
        }
        i = i + 1;
    }
    assert(name_views(names@).take(names.len() as int) == name_views(names@));
    out
}

/// The refusal of deleting an asset that scenes still show: the scene names,
/// sorted and without repeats, joined with `", "`.
pub open spec fn asset_in_use_message(names: Seq<Seq<char>>) -> Seq<char> {
    "asset is still referenced by scene(s): "@ + join_comma(names)
}

/// Whether an asset may be deleted, given the names of the scenes whose
/// image elements reference it (in any order, possibly repeated): only when
/// there are none; otherwise the refusal names them, sorted and without
/// repeats.
pub fn check_asset_delete(referencing_scenes: &Vec<String>) -> (r: Result<(), RepositoryError>)
    ensures
        referencing_scenes.len() == 0 ==> r is Ok,
        referencing_scenes.len() > 0 ==> (r matches Err(RepositoryError::ConflictDetail(m)) && exists|
            sorted: Seq<Seq<char>>,
        |
            strictly_sorted(sorted) && (forall|x: Seq<char>|
                sorted.contains(x) <==> name_views(referencing_scenes@).contains(x)) && m@
                == asset_in_use_message(sorted)),
{
    if referencing_scenes.len() == 0 {
        return Ok(());
    }
    let names = sorted_unique_names(referencing_scenes);
    let mut v = chars_of("asset is still referenced by scene(s): ");
    let joined = join_names(&names);
    extend_chars(&mut v, &joined);
    Err(RepositoryError::ConflictDetail(string_from_chars(&v)))
}

/// What deleting a font face does.
#[derive(Debug, Clone)]
pub enum FontDeleteDecision {
    /// Delete the face.
    Proceed,
    /// Refuse: it is the last face of a family these scenes (sorted, without
    /// repeats) still use.
    Refuse(Vec<String>),
}

/// A font face may be deleted unless it is the last face of its family
/// (`remaining_faces` other faces remain) and some scenes still use the
/// family.
pub fn decide_font_delete(remaining_faces: u64, referencing_scenes: &Vec<String>) -> (d:
    FontDeleteDecision)
    ensures
        (remaining_faces > 0 || referencing_scenes.len() == 0) ==> d is Proceed,
        (remaining_faces == 0 && referencing_scenes.len() > 0) ==> (d matches FontDeleteDecision::Refuse(
            names,
        ) && strictly_sorted(name_views(names@)) && forall|x: Seq<char>|
            name_views(names@).contains(x) <==> name_views(referencing_scenes@).contains(x)),
{
    if remaining_faces == 0 && referencing_scenes.len() > 0 {
        FontDeleteDecision::Refuse(sorted_unique_names(referencing_scenes))
    } else {
        FontDeleteDecision::Proceed
    }
}


/// The display order of scenes: by kind rank (base, overlay, unrecognised),
/// then position, then id.
pub open spec fn scene_before_or_same(a: SceneRow, b: SceneRow) -> bool {
    let ra = kind_rank_spec(a.kind@);
    let rb = kind_rank_spec(b.kind@);
    ra < rb || (ra == rb && (a.position < b.position || (a.position == b.position && a.id <= b.id)))
}

/// Whether `s` is in display order.
pub open spec fn scenes_in_display_order(s: Seq<SceneRow>) -> bool {
    forall|i: int, j: int| 0 <= i < j < s.len() ==> scene_before_or_same(s[i], s[j])
}

fn scene_after(a: &SceneRow, ka: u8, b: &SceneRow, kb: u8) -> (r: bool)
    requires
        ka == kind_rank_spec(a.kind@),
        kb == kind_rank_spec(b.kind@),
    ensures
        r == !scene_before_or_same(*a, *b),
{
    if ka != kb {
        ka > kb
    } else if a.position != b.position {
        a.position > b.position
    } else {
        a.id > b.id
    }
}

/// Puts scenes into display order (base before overlay, then position, then
/// id), keeping every row.
pub fn order_scenes_for_display(scenes: Vec<SceneRow>) -> (r: Vec<SceneRow>)
    ensures
        scenes_in_display_order(r@),
        r@.to_multiset() == scenes@.to_multiset(),
{
    broadcast use vstd::multiset::group_multiset_axioms;
    broadcast use vstd::seq_lib::group_to_multiset_ensures;
    let mut input = scenes;
    let mut out: Vec<SceneRow> = Vec::new();
    while input.len() > 0
        invariant
            scenes_in_display_order(out@),
            out@.to_multiset().add(input@.to_multiset()) == scenes@.to_multiset(),
        decreases input.len(),
    {
        let ghost in_before = input@;
        let x = input.remove(0);
        proof {
            vstd::seq_lib::to_multiset_remove(in_before, 0);
        }
        let kx = kind_rank(x.kind.as_str());
        let mut p: usize = 0;
        let mut stop = false;
        while p < out.len() && !stop
            invariant
                p <= out.len(),
                kx == kind_rank_spec(x.kind@),
                forall|k: int| 0 <= k < p ==> scene_before_or_same(out@[k], x),
                stop ==> p < out.len() && !scene_before_or_same(out@[p as int], x),
            decreases out.len() - p + if stop { 0int } else { 1int },
        {
            let kp = kind_rank(out[p].kind.as_str());
            if scene_after(&out[p], kp, &x, kx) {
                stop = true;
            } else {
                p = p + 1;
            }
        }
        let ghost before = out@;
        out.insert(p, x);
        proof {
            vstd::seq_lib::to_multiset_insert(before, p as int, x);
            let after = out@;
            assert(after =~= before.insert(p as int, x));
            assert forall|a: int, b: int| 0 <= a < b < after.len() implies scene_before_or_same(
                after[a],
                after[b],
            ) by {
                if b == p as int {
                    assert(scene_before_or_same(before[a], x));
                } else if a == p as int {
                    assert(!scene_before_or_same(before[p as int], x));
                    if b - 1 > p as int {
                        assert(scene_before_or_same(before[p as int], before[b - 1]));
                    }
                } else if a < p as int && b > p as int {
                    assert(scene_before_or_same(before[a], before[b - 1]));
                } else if a > p as int {
                    assert(scene_before_or_same(before[a - 1], before[b - 1]));
                }
            }
            assert(in_before[0] == x);
            assert(in_before.contains(x));
            vstd::seq_lib::to_multiset_contains(in_before, x);
            assert(in_before.to_multiset().count(x) > 0);
            assert(out@.to_multiset().add(input@.to_multiset()) =~= before.to_multiset().add(
                in_before.to_multiset(),
            ));
        }
    }
    assert(input@.to_multiset() =~= vstd::multiset::Multiset::empty());
    out
}

/// A reorder of an output's scenes: the positions to write and the output's
/// configuration revision after the write.
#[derive(Debug, Clone)]
pub struct SceneReorder {
    pub slots: Vec<OrderSlot>,
    pub config_revision: i32,
}

/// Plans a scene reorder of the output found by its slug: a missing output
/// is `NotFound`; an invalid id set is refused as [`plan_scene_order`]
/// refuses it; otherwise the positions of [`scene_order_plan`] are written
/// and the output's configuration revision goes up by one.
pub fn plan_output_scene_reorder(
    output: Option<&OutputRow>,
    scenes: &Vec<SceneRow>,
    ids: &Vec<i64>,
) -> (r: Result<SceneReorder, RepositoryError>)
    requires
        ids.len() < i32::MAX,
        output matches Some(o) ==> o.config_revision < i32::MAX,
    ensures
        output is None ==> r == Err::<SceneReorder, RepositoryError>(
            RepositoryError::NotFound("stream output not found"),
        ),
        output is Some ==> match order_error_spec(
            ids@,
            scene_ids(scenes@),
            "scene order contains duplicate ids"@,
            "scene order id set does not match this output's scenes"@,
        ) {
            Some(msg) => r matches Err(RepositoryError::Invalid(m)) && m@ == msg,
            None => r matches Ok(plan) && plan.slots@ == scene_order_plan(scenes@, ids@)
                && plan.config_revision == output->0.config_revision + 1,
        },
{
    let out = match output {
        Some(o) => o,
        None => {
            return Err(RepositoryError::NotFound("stream output not found"));
        },
    };
    let slots = plan_scene_order(scenes, ids)?;
    Ok(SceneReorder { slots, config_revision: next_config_revision(out.config_revision) })
}

/// The output row after setting its active base scene: only the active
/// scene changes; the configuration revision stays, since activation is no
/// configuration change. A missing output is `NotFound`; the scene is
/// checked as [`resolve_active_scene`] checks it.
pub fn plan_set_active_scene(
    output: Option<&OutputRow>,
    requested: Option<i64>,
    found: Option<&SceneRow>,
) -> (r: Result<OutputRow, RepositoryError>)
    ensures
        output is None ==> r == Err::<OutputRow, RepositoryError>(
            RepositoryError::NotFound("stream output not found"),
        ),
        output is Some && requested is Some && found is None ==> r == Err::<
            OutputRow,
            RepositoryError,
        >(RepositoryError::TargetNotFound("scene not found")),
        output is Some && requested is Some && found is Some && found->0.output_id != output->0.id
            ==> (r matches Err(RepositoryError::Invalid(m)) && m@
            == "scene does not belong to this output"@),
        output is Some && requested is Some && found is Some && found->0.output_id == output->0.id
            && scene_kind_of(found->0.kind@) != Some(SceneKind::Base) ==> (r matches Err(
            RepositoryError::Invalid(m),
        ) && m@ == "scene is not a base scene"@),
        output is Some && (requested is None || (found is Some && found->0.output_id
            == output->0.id && scene_kind_of(found->0.kind@) == Some(SceneKind::Base))) ==> (
        r matches Ok(row) && row.id == output->0.id && row.slug@ == output->0.slug@ && row.name@
            == output->0.name@ && row.default_transition_ms == output->0.default_transition_ms
            && row.config_revision == output->0.config_revision && row.active_scene_id == match requested {
            Some(sid) => Some(sid as i32),
            None => None::<i32>,
        }),
{
    let out = match output {
        Some(o) => o,
        None => {
            return Err(RepositoryError::NotFound("stream output not found"));
        },
    };
    let active = resolve_active_scene(out.id, requested, found)?;
    Ok(
        OutputRow {
            id: out.id,
            slug: out.slug.clone(),
            name: out.name.clone(),
            default_transition_ms: out.default_transition_ms,
            active_scene_id: active,
            config_revision: out.config_revision,
        },
    )
}

/// The elements of `els` whose properties parsed (`parsed[i]` for
/// `els[i]`), in order.
pub open spec fn parsed_elements(els: Seq<ElementRow>, parsed: Seq<bool>) -> Seq<ElementRow>
    decreases els.len(),
{
    if els.len() == 0 || parsed.len() != els.len() {
        Seq::empty()
    } else {
        let rest = parsed_elements(els.drop_last(), parsed.drop_last());
        if parsed.last() {
            rest.push(els.last())
        } else {
            rest
        }
    }
}

/// Whether element `a` comes no later than `b`: by z-order, then id.
pub open spec fn element_before_or_same(a: ElementRow, b: ElementRow) -> bool {
    a.z_order < b.z_order || (a.z_order == b.z_order && a.id <= b.id)
}

/// Whether `s` is in drawing order.
pub open spec fn elements_in_order(s: Seq<ElementRow>) -> bool {
    forall|i: int, j: int| 0 <= i < j < s.len() ==> element_before_or_same(s[i], s[j])
}

fn copy_element(e: &ElementRow) -> (r: ElementRow)
    ensures
        r == *e,
{
    ElementRow { id: e.id, scene_id: e.scene_id, kind: e.kind.clone(), z_order: e.z_order }
}

/// The elements a scene's definition lists: those whose properties parsed
/// (`parsed[i]` says it of `elements[i]`), in drawing order (z-order, then
/// id); an element whose properties do not parse is left out.
pub fn scene_elements_for_display(elements: &Vec<ElementRow>, parsed: &Vec<bool>) -> (r: Vec<ElementRow>)
    requires
        parsed.len() == elements.len(),
    ensures
        elements_in_order(r@),
        r@.to_multiset() == parsed_elements(elements@, parsed@).to_multiset(),
{
    broadcast use vstd::multiset::group_multiset_axioms;
    broadcast use vstd::seq_lib::group_to_multiset_ensures;
    let mut kept: Vec<ElementRow> = Vec::new();
    let mut i: usize = 0;
    while i < elements.len()
        invariant
            i <= elements.len(),
            parsed.len() == elements.len(),
            kept@ == parsed_elements(elements@.take(i as int), parsed@.take(i as int)),
        decreases elements.len() - i,
    {
        assert(elements@.take(i + 1).drop_last() == elements@.take(i as int));
        assert(parsed@.take(i + 1).drop_last() == parsed@.take(i as int));
        if parsed[i] {
            kept.push(copy_element(&elements[i]));
        }
        i = i + 1;
    }
    assert(elements@.take(elements.len() as int) == elements@);
    assert(parsed@.take(parsed.len() as int) == parsed@);
    let ghost all = kept@;
    let mut input = kept;
    let mut out: Vec<ElementRow> = Vec::new();
    while input.len() > 0
        invariant
            elements_in_order(out@),
            out@.to_multiset().add(input@.to_multiset()) == all.to_multiset(),
        decreases input.len(),
    {
        let ghost in_before = input@;
        let x = input.remove(0);
        proof {
            vstd::seq_lib::to_multiset_remove(in_before, 0);
        }
        let mut p: usize = 0;
        let mut stop = false;
        while p < out.len() && !stop
            invariant
                p <= out.len(),
                forall|k: int| 0 <= k < p ==> element_before_or_same(out@[k], x),
                stop ==> p < out.len() && !element_before_or_same(out@[p as int], x),
            decreases out.len() - p + if stop { 0int } else { 1int },
        {
            let after = out[p].z_order > x.z_order || (out[p].z_order == x.z_order && out[p].id > x.id);
            if after {
                stop = true;
            } else {
                p = p + 1;
            }
        }
        let ghost before = out@;
        out.insert(p, x);
        proof {
            vstd::seq_lib::to_multiset_insert(before, p as int, x);
            let after = out@;
            assert(after =~= before.insert(p as int, x));
            assert forall|a: int, b: int| 0 <= a < b < after.len() implies element_before_or_same(
                after[a],
                after[b],
            ) by {
                if b == p as int {
                    assert(element_before_or_same(before[a], x));
                } else if a == p as int {
                    assert(!element_before_or_same(before[p as int], x));
                    if b - 1 > p as int {
                        assert(element_before_or_same(before[p as int], before[b - 1]));
                    }
                } else if a < p as int && b > p as int {
                    assert(element_before_or_same(before[a], before[b - 1]));
                } else if a > p as int {
                    assert(element_before_or_same(before[a - 1], before[b - 1]));
                }
            }
            assert(in_before[0] == x);
            assert(in_before.contains(x));
            vstd::seq_lib::to_multiset_contains(in_before, x);
            assert(out@.to_multiset().add(input@.to_multiset()) =~= before.to_multiset().add(
                in_before.to_multiset(),
            ));
        }
    }
    assert(input@.to_multiset() =~= vstd::multiset::Multiset::empty());
    out
}

} // verus!
