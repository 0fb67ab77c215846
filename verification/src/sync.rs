//! Last-writer-wins song and library sync between two Presenter instances:
//! which peer rows apply, onto which local rows, and under which names.
use crate::error::RepositoryError;
use crate::text::{chars_equal, chars_of, decimal, digit_char, extend_chars, string_from_chars, u32_decimal};
use vstd::prelude::*;
use vstd::string::StringExecFns;

verus! {

/// What applying one peer row did.
#[derive(Debug, Clone, Copy, PartialEq, Eq, Structural)]
pub enum SyncApplyOutcome {
    Created,
    Updated,
    AdoptedByName,
    SkippedNotNewer,
}

impl SyncApplyOutcome {
    /// Whether the apply wrote to the database.
    pub fn wrote(self) -> (w: bool)
        ensures
            w == (self != SyncApplyOutcome::SkippedNotNewer),
    {
        !matches!(self, SyncApplyOutcome::SkippedNotNewer)
    }
}

/// The last-writer-wins rule. Timestamps are nanoseconds since the Unix
/// epoch. A peer row applies when it is strictly newer than the local one;
/// when there is no local row it applies unless it is a tombstone (a row
/// already pruned here is never resurrected).
pub open spec fn should_apply(peer: i128, peer_deleted: bool, local: Option<i128>) -> bool {
    match local {
        None => !peer_deleted,
        Some(l) => peer > l,
    }
}

/// Whether the peer row `(peer, peer_deleted)` applies over `local`.
pub fn sync_should_apply(peer: i128, peer_deleted: bool, local: Option<i128>) -> (r: bool)
    ensures
        r == should_apply(peer, peer_deleted, local),
{
    match local {
        None => !peer_deleted,
        Some(l) => peer > l,
    }
}

/// Applying a row stores the peer's own timestamp, so the same row offered
/// again never applies a second time (no echo).
pub proof fn lemma_no_echo(t: i128, deleted: bool)
    ensures
        !should_apply(t, deleted, Some(t)),
{
}

/// Two instances never both overwrite each other: if the peer's row wins
/// over ours, ours does not win over the peer's.
pub proof fn lemma_lww_antisymmetric(a: i128, a_deleted: bool, b: i128, b_deleted: bool)
    requires
        should_apply(a, a_deleted, Some(b)),
    ensures
        !should_apply(b, b_deleted, Some(a)),
{
}

/// Under the bare last-writer-wins rule, a tombstone for a row we do not
/// hold never applies (libraries refine this by the prune horizon, see
/// [`lemma_unknown_library_tombstone_by_age`]).
pub proof fn lemma_unknown_tombstone_never_resurrects(t: i128)
    ensures
        !should_apply(t, true, None),
{
}

/// How long a tombstone is kept before it is pruned: 30 days, in
/// nanoseconds.
pub const PRUNE_HORIZON_NANOS: i128 = 2_592_000_000_000_000;

/// Whether a tombstone deleted at `deleted_at` is still within the prune
/// horizon at time `now` (so a peer that never held the row must still
/// materialise it as trashed). A tombstone deleted exactly at the horizon
/// is still kept.
pub open spec fn recent_tombstone(deleted_at: i128, now: i128) -> bool {
    deleted_at >= now - PRUNE_HORIZON_NANOS
}

/// Whether a tombstone deleted at `deleted_at` is still kept at `now`: it is
/// pruned only once it is strictly older than the horizon.
pub fn is_tombstone_retained(deleted_at: i128, now: i128) -> (r: bool)
    ensures
        r == recent_tombstone(deleted_at, now),
{
    !deleted_before_cutoff(deleted_at, now, PRUNE_HORIZON_NANOS)
}

/// Whether a row whose deletion time is `deleted_at` is removed by a prune
/// at `now` that retains tombstones for `retain`: only a tombstone deleted
/// strictly before `now - retain` is.
pub open spec fn prunable(deleted_at: Option<i128>, now: i128, retain: i128) -> bool {
    deleted_at matches Some(d) && d < now - retain
}

/// `deleted_at < now - retain`, computed without overflow.
fn deleted_before_cutoff(deleted_at: i128, now: i128, retain: i128) -> (r: bool)
    ensures
        r == (deleted_at < now - retain),
{
    if retain >= 0 {
        if now < i128::MIN + retain {
            false
        } else {
            deleted_at < now - retain
        }
    } else {
        if now > i128::MAX + retain {
            true
        } else {
            deleted_at < now - retain
        }
    }
}

/// Plans a prune of trashed rows at `now` keeping tombstones for `retain`:
/// given each row's deletion time, the positions of exactly the rows to
/// hard-delete (tombstones deleted strictly before `now - retain`), in
/// ascending order. Live rows and newer tombstones stay.
pub fn plan_prune(deleted_at: &Vec<Option<i128>>, now: i128, retain: i128) -> (r: Vec<usize>)
    ensures
        forall|k: int| 0 <= k < r.len() ==> #[trigger] r@[k] < deleted_at.len(),
        forall|k: int| 0 <= k < r.len() ==> prunable(deleted_at@[#[trigger] r@[k] as int], now, retain),
        forall|j: int, k: int| 0 <= j < k < r.len() ==> #[trigger] r@[j] < #[trigger] r@[k],
        forall|i: int|
            0 <= i < deleted_at.len() && prunable(#[trigger] deleted_at@[i], now, retain) ==> r@.contains(
                i as usize,
            ),
{
    let mut r: Vec<usize> = Vec::new();
    let mut i: usize = 0;
    while i < deleted_at.len()
        invariant
            i <= deleted_at.len(),
            forall|k: int| 0 <= k < r.len() ==> #[trigger] r@[k] < i,
            forall|k: int| 0 <= k < r.len() ==> prunable(deleted_at@[#[trigger] r@[k] as int], now, retain),
            forall|j: int, k: int| 0 <= j < k < r.len() ==> #[trigger] r@[j] < #[trigger] r@[k],
            forall|x: int|
                0 <= x < i && prunable(#[trigger] deleted_at@[x], now, retain) ==> r@.contains(x as usize),
        decreases deleted_at.len() - i,
    {
        let remove = match deleted_at[i] {
            Some(d) => deleted_before_cutoff(d, now, retain),
            None => false,
        };
        if remove {
            let ghost before = r@;
            r.push(i);
            assert forall|x: int|
                0 <= x < i + 1 && prunable(#[trigger] deleted_at@[x], now, retain) implies r@.contains(
                x as usize,
            ) by {
                if x < i {
                    assert(before.contains(x as usize));
                    let w = choose|w: int| 0 <= w < before.len() && before[w] == x as usize;
                    assert(r@[w] == x as usize);
                } else {
                    assert(r@[r.len() - 1] == x as usize);
                }
            }
        }
        i = i + 1;
    }
    r
}

/// A prune that keeps tombstones for the prune horizon removes exactly the
/// tombstones that are no longer recent, the same age test that decides
/// whether an unknown peer tombstone is still materialised.
pub proof fn lemma_prune_horizon_matches_recent(deleted_at: i128, now: i128)
    ensures
        prunable(Some(deleted_at), now, PRUNE_HORIZON_NANOS) == !recent_tombstone(deleted_at, now),
{
}

/// A stored library row.
#[derive(Debug, Clone)]
pub struct LibraryRow {
    pub id: String,
    pub name: String,
    pub sync_id: String,
    pub updated_at: i128,
    pub deleted_at: Option<i128>,
}

/// Whether a presentation may be restored into its parent library: the
/// library must exist (else `NotFound`) and must not be trashed (else
/// `Conflict`).
pub fn classify_restore_library(library: Option<&LibraryRow>) -> (r: Result<(), RepositoryError>)
    ensures
        library is None ==> (r matches Err(RepositoryError::NotFound(m)) && m@
            == "the presentation's library no longer exists"@),
        library is Some && library->0.deleted_at is Some ==> (r matches Err(
            RepositoryError::Conflict(m),
        ) && m@ == "the presentation's library is still trashed — restore the library first"@),
        library is Some && library->0.deleted_at is None ==> r is Ok,
{
    match library {
        None => Err(RepositoryError::NotFound("the presentation's library no longer exists")),
        Some(lib) => {
            if lib.deleted_at.is_some() {
                Err(
                    RepositoryError::Conflict(
                        "the presentation's library is still trashed — restore the library first",
                    ),
                )
            } else {
                Ok(())
            }
        },
    }
}

/// One peer library row, as the library manifest carries it.
#[derive(Debug, Clone)]
pub struct SyncLibraryManifestRow {
    pub sync_id: String,
    pub name: String,
    pub updated_at: i128,
    pub deleted_at: Option<i128>,
}

/// What applying a peer library row does to the local table.
#[derive(Debug, Clone, PartialEq, Eq)]
pub enum LibraryApplyPlan {
    /// Nothing: the local row is as new or newer, or the peer row is a
    /// tombstone, older than the prune horizon, for a library we do not hold.
    Skip,
    /// Overwrite the row with the same sync identity in place. A live write
    /// whose name another live library owns must be disambiguated first.
    UpdateInPlace { local_id: String, disambiguate: bool },
    /// Adopt the live same-named row: write the peer's identity onto it.
    AdoptByName { local_id: String },
    /// Insert a new row with the peer's identity and timestamps (trashed
    /// when the peer row is a recent tombstone).
    Create,
}

/// The outcome reported for a library apply plan.
pub open spec fn library_plan_outcome(plan: LibraryApplyPlan) -> SyncApplyOutcome {
    match plan {
        LibraryApplyPlan::Skip => SyncApplyOutcome::SkippedNotNewer,
        LibraryApplyPlan::UpdateInPlace { .. } => SyncApplyOutcome::Updated,
        LibraryApplyPlan::AdoptByName { .. } => SyncApplyOutcome::AdoptedByName,
        LibraryApplyPlan::Create => SyncApplyOutcome::Created,
    }
}

impl LibraryApplyPlan {
    /// The outcome this plan reports.
    pub fn outcome(&self) -> (o: SyncApplyOutcome)
        ensures
            o == library_plan_outcome(*self),
    {
        match self {
            LibraryApplyPlan::Skip => SyncApplyOutcome::SkippedNotNewer,
            LibraryApplyPlan::UpdateInPlace { .. } => SyncApplyOutcome::Updated,
            LibraryApplyPlan::AdoptByName { .. } => SyncApplyOutcome::AdoptedByName,
            LibraryApplyPlan::Create => SyncApplyOutcome::Created,
        }
    }
}

/// The plan for a peer library row at time `now`, given the local row
/// carrying its sync identity (if any) and the live local library with its
/// name (if any).
pub open spec fn library_apply_plan(
    incoming: SyncLibraryManifestRow,
    by_sync_id: Option<LibraryRow>,
    live_by_name: Option<LibraryRow>,
    now: i128,
) -> LibraryApplyPlan {
    let deleted = incoming.deleted_at is Some;
    match by_sync_id {
        Some(existing) => if !should_apply(incoming.updated_at, deleted, Some(existing.updated_at)) {
            LibraryApplyPlan::Skip
        } else {
            LibraryApplyPlan::UpdateInPlace { local_id: existing.id, disambiguate: !deleted }
        },
        None => if !deleted && live_by_name is Some {
            if !should_apply(incoming.updated_at, false, Some(live_by_name->0.updated_at)) {
                LibraryApplyPlan::Skip
            } else {
                LibraryApplyPlan::AdoptByName { local_id: live_by_name->0.id }
            }
        } else {
            match incoming.deleted_at {
                Some(d) => if recent_tombstone(d, now) {
                    LibraryApplyPlan::Create
                } else {
                    LibraryApplyPlan::Skip
                },
                None => LibraryApplyPlan::Create,
            }
        },
    }
}

/// Plans the last-writer-wins apply of one peer library row at time `now`:
/// match by sync identity first; else a live peer row adopts the live
/// same-named local library; else the row is created, unless it is a
/// tombstone older than the prune horizon.
pub fn plan_apply_sync_library(
    incoming: &SyncLibraryManifestRow,
    by_sync_id: Option<&LibraryRow>,
    live_by_name: Option<&LibraryRow>,
    now: i128,
) -> (plan: LibraryApplyPlan)
    ensures
        plan == library_apply_plan(
            *incoming,
            match by_sync_id {
                Some(r) => Some(*r),
                None => None,
            },
            match live_by_name {
                Some(r) => Some(*r),
                None => None,
            },
            now,
        ),
        plan matches LibraryApplyPlan::AdoptByName { local_id } ==> by_sync_id is None
            && incoming.deleted_at is None && live_by_name is Some && incoming.updated_at
            > live_by_name->0.updated_at && local_id@ == live_by_name->0.id@,
        plan matches LibraryApplyPlan::UpdateInPlace { local_id, .. } ==> by_sync_id is Some
            && incoming.updated_at > by_sync_id->0.updated_at && local_id@ == by_sync_id->0.id@,
        by_sync_id is Some ==> (plan is Skip <==> incoming.updated_at <= by_sync_id->0.updated_at),
        by_sync_id is None && incoming.deleted_at is None && live_by_name is Some ==> (plan is Skip
            <==> incoming.updated_at <= live_by_name->0.updated_at),
        by_sync_id is None && incoming.deleted_at is None && live_by_name is Some
            && incoming.updated_at > live_by_name->0.updated_at ==> plan is AdoptByName,
{
    let deleted = incoming.deleted_at.is_some();
    match by_sync_id {
        Some(existing) => {
            if !sync_should_apply(incoming.updated_at, deleted, Some(existing.updated_at)) {
                LibraryApplyPlan::Skip
            } else {
                LibraryApplyPlan::UpdateInPlace {
                    local_id: existing.id.clone(),
                    disambiguate: !deleted,
                }
            }
        },
        None => {
            if !deleted && live_by_name.is_some() {
                let existing = live_by_name.unwrap();
                if !sync_should_apply(incoming.updated_at, false, Some(existing.updated_at)) {
                    LibraryApplyPlan::Skip
                } else {
                    LibraryApplyPlan::AdoptByName { local_id: existing.id.clone() }
                }
            } else {
                match incoming.deleted_at {
                    Some(d) => if is_tombstone_retained(d, now) {
                        LibraryApplyPlan::Create
                    } else {
                        LibraryApplyPlan::Skip
                    },
                    None => LibraryApplyPlan::Create,
                }
            }
        },
    }
}

/// Last-writer-wins for libraries: a planned write never puts a peer row
/// over a local row that is as new or newer. A row matched by identity is
/// overwritten exactly when the peer's clock is strictly later; a live peer
/// row with no identity match adopts the live same-named local library
/// exactly when the peer's clock is strictly later than that library's, and
/// is skipped otherwise.
pub proof fn lemma_library_apply_never_overwrites_newer(
    incoming: SyncLibraryManifestRow,
    by_sync_id: Option<LibraryRow>,
    live_by_name: Option<LibraryRow>,
    now: i128,
)
    ensures
        library_apply_plan(incoming, by_sync_id, live_by_name, now) matches LibraryApplyPlan::AdoptByName {
            local_id,
        } ==> by_sync_id is None && live_by_name is Some && incoming.deleted_at is None
            && incoming.updated_at > live_by_name->0.updated_at && local_id == live_by_name->0.id,
        library_apply_plan(incoming, by_sync_id, live_by_name, now) matches LibraryApplyPlan::UpdateInPlace {
            local_id,
            ..
        } ==> by_sync_id is Some && incoming.updated_at > by_sync_id->0.updated_at && local_id
            == by_sync_id->0.id,
        by_sync_id is Some ==> (library_apply_plan(incoming, by_sync_id, live_by_name, now) is Skip
            <==> incoming.updated_at <= by_sync_id->0.updated_at),
        by_sync_id is None && incoming.deleted_at is None && live_by_name is Some ==> (
        library_apply_plan(incoming, by_sync_id, live_by_name, now) is Skip <==> incoming.updated_at
            <= live_by_name->0.updated_at),
{
}

/// The library row an applied peer row writes (onto the planned local row,
/// or as a new row).
#[derive(Debug, Clone)]
pub struct LibraryWrite {
    pub sync_id: String,
    pub name: String,
    pub updated_at: i128,
    pub deleted_at: Option<i128>,
}

/// The row written for an applied peer library row: the peer's sync
/// identity, its own `updated_at` (never the local clock) and its
/// `deleted_at`; its name verbatim, except that a live in-place write that
/// must be disambiguated takes the conflict-free form of the name against
/// `taken`, the names of the other live libraries.
pub fn library_write(incoming: &SyncLibraryManifestRow, disambiguate: bool, taken: &Vec<String>) -> (w:
    LibraryWrite)
    requires
        taken.len() < u32::MAX - 2,
    ensures
        w.sync_id@ == incoming.sync_id@,
        w.updated_at == incoming.updated_at,
        w.deleted_at == incoming.deleted_at,
        disambiguate ==> is_conflict_free_name(incoming.name@, name_views(taken@), w.name@),
        !disambiguate ==> w.name@ == incoming.name@,
{
    let name = if disambiguate {
        resolve_conflict_free_name(incoming.name.as_str(), taken)
    } else {
        incoming.name.clone()
    };
    LibraryWrite {
        sync_id: incoming.sync_id.clone(),
        name,
        updated_at: incoming.updated_at,
        deleted_at: incoming.deleted_at,
    }
}

/// A library row that holds what an applied peer row wrote is never
/// overwritten by the same peer row again (no echo).
pub proof fn lemma_written_library_is_stable(
    incoming: SyncLibraryManifestRow,
    w: LibraryWrite,
    local: LibraryRow,
    live_by_name: Option<LibraryRow>,
    now: i128,
)
    requires
        w.updated_at == incoming.updated_at,
        local.updated_at == w.updated_at,
    ensures
        library_apply_plan(incoming, Some(local), live_by_name, now) == LibraryApplyPlan::Skip,
{
}

/// Offering a library row again after it applied (the local row now carries
/// the peer's timestamp) plans nothing.
pub proof fn lemma_library_apply_idempotent(
    incoming: SyncLibraryManifestRow,
    local: LibraryRow,
    live_by_name: Option<LibraryRow>,
    now: i128,
)
    requires
        local.updated_at == incoming.updated_at,
    ensures
        library_apply_plan(incoming, Some(local), live_by_name, now) == LibraryApplyPlan::Skip,
{
}

/// A peer tombstone never adopts a live same-named local library: without a
/// sync-identity match it is created as its own trashed row or skipped.
pub proof fn lemma_tombstone_never_adopts(
    incoming: SyncLibraryManifestRow,
    live_by_name: Option<LibraryRow>,
    now: i128,
)
    requires
        incoming.deleted_at is Some,
    ensures
        library_apply_plan(incoming, None, live_by_name, now) == LibraryApplyPlan::Create
            || library_apply_plan(incoming, None, live_by_name, now) == LibraryApplyPlan::Skip,
{
}

/// A tombstone for a library we do not hold is created (as trashed) while
/// it is within the prune horizon, and never once it is older: a pruned
/// library is not resurrected.
pub proof fn lemma_unknown_library_tombstone_by_age(
    incoming: SyncLibraryManifestRow,
    live_by_name: Option<LibraryRow>,
    now: i128,
)
    requires
        incoming.deleted_at is Some,
    ensures
        (library_apply_plan(incoming, None, live_by_name, now) == LibraryApplyPlan::Create)
            == recent_tombstone(incoming.deleted_at->0, now),
{
}

/// The `k`-th disambiguated form of `desired`: `desired (k)`.
pub open spec fn suffixed_name(desired: Seq<char>, k: nat) -> Seq<char> {
    desired + " ("@ + decimal(k) + ")"@
}

/// The characters of each name in `names`.
pub open spec fn name_views(names: Seq<String>) -> Seq<Seq<char>> {
    names.map_values(|s: String| s@)
}

/// The name a live library may be written under when `taken` are the names
/// of the other live libraries: `desired` itself when free, otherwise
/// `desired (k)` for the least `k >= 2` that is free.
pub open spec fn is_conflict_free_name(desired: Seq<char>, taken: Seq<Seq<char>>, r: Seq<char>) -> bool {
    if !taken.contains(desired) {
        r == desired
    } else {
        exists|k: nat|
            k >= 2 && r == suffixed_name(desired, k) && !taken.contains(r) && forall|j: nat|
                2 <= j < k ==> taken.contains(#[trigger] suffixed_name(desired, j))
    }
}

proof fn lemma_decimal_nonempty(n: nat)
    ensures
        decimal(n).len() >= 1,
        n >= 10 ==> decimal(n).len() >= 2,
    decreases n,
{
    if n >= 10 {
        lemma_decimal_nonempty(n / 10);
    }
}

proof fn lemma_decimal_injective(a: nat, b: nat)
    requires
        decimal(a) == decimal(b),
    ensures
        a == b,
    decreases a,
{
    lemma_decimal_nonempty(a);
    lemma_decimal_nonempty(b);
    lemma_decimal_nonempty(a / 10);
    lemma_decimal_nonempty(b / 10);
    if a < 10 && b < 10 {
        assert(decimal(a)[0] == digit_char(a));
        assert(decimal(b)[0] == digit_char(b));
        assert((a + 48) as u8 == (b + 48) as u8);
    } else if a >= 10 && b >= 10 {
        let da = decimal(a);
        let db = decimal(b);
        assert(da.last() == digit_char(a % 10));
        assert(db.last() == digit_char(b % 10));
        assert(((a % 10) + 48) as u8 == ((b % 10) + 48) as u8);
        assert(da.drop_last() == decimal(a / 10));
        assert(db.drop_last() == decimal(b / 10));
        lemma_decimal_injective(a / 10, b / 10);
    } else {
        assert(decimal(a).len() != decimal(b).len());
    }
}

proof fn lemma_suffixed_injective(desired: Seq<char>, a: nat, b: nat)
    requires
        suffixed_name(desired, a) == suffixed_name(desired, b),
    ensures
        a == b,
{
    reveal_strlit(" (");
    reveal_strlit(")");
    let p = desired + " ("@;
    let sa = suffixed_name(desired, a);
    let sb = suffixed_name(desired, b);
    assert(sa.subrange(p.len() as int, sa.len() - 1) =~= decimal(a));
    assert(sb.subrange(p.len() as int, sb.len() - 1) =~= decimal(b));
    lemma_decimal_injective(a, b);
}

/// If the forms `2..=k` are all taken, `taken` holds at least `k - 1`
/// distinct names.
proof fn lemma_taken_bound(desired: Seq<char>, taken: Seq<Seq<char>>, k: nat)
    requires
        k >= 2,
        forall|j: nat| 2 <= j <= k ==> taken.contains(#[trigger] suffixed_name(desired, j)),
    ensures
        k - 1 <= taken.len(),
{
    let cands = Seq::new((k - 1) as nat, |i: int| suffixed_name(desired, (i + 2) as nat));
    assert(cands.no_duplicates()) by {
        assert forall|i: int, j: int|
            0 <= i < cands.len() && 0 <= j < cands.len() && i != j implies cands[i] != cands[j] by {
            if cands[i] == cands[j] {
                lemma_suffixed_injective(desired, (i + 2) as nat, (j + 2) as nat);
            }
        }
    }
    cands.unique_seq_to_set();
    assert(cands.to_set().subset_of(taken.to_set())) by {
        assert forall|x: Seq<char>| cands.to_set().contains(x) implies taken.to_set().contains(x) by {
            let i = choose|i: int| 0 <= i < cands.len() && cands[i] == x;
            assert(taken.contains(suffixed_name(desired, (i + 2) as nat)));
        }
    }
    vstd::seq_lib::seq_to_set_is_finite(taken);
    vstd::set_lib::lemma_len_subset(cands.to_set(), taken.to_set());
    taken.lemma_cardinality_of_set();
}

/// Whether one of `names` holds exactly the characters `x`.
pub fn names_contain(names: &Vec<String>, x: &Vec<char>) -> (r: bool)
    ensures
        r == name_views(names@).contains(x@),
{
    let mut i: usize = 0;
    while i < names.len()
        invariant
            i <= names.len(),
            forall|k: int| 0 <= k < i ==> names@[k]@ != x@,
        decreases names.len() - i,
    {
        let v = chars_of(names[i].as_str());
        if chars_equal(&v, x) {
            assert(name_views(names@)[i as int] == x@);
            return true;
        }
        i = i + 1;
    }
    proof {
        assert forall|k: int| 0 <= k < names@.len() implies name_views(names@)[k] != x@ by {
            assert(name_views(names@)[k] == names@[k]@);
        }
    }
    false
}

fn build_suffixed(desired: &Vec<char>, k: u32) -> (r: Vec<char>)
    ensures
        r@ == suffixed_name(desired@, k as nat),
{
    let mut v: Vec<char> = Vec::new();
    extend_chars(&mut v, desired);
    let open = chars_of(" (");
    extend_chars(&mut v, &open);
    let d = u32_decimal(k);
    extend_chars(&mut v, &d);
    let close = chars_of(")");
    extend_chars(&mut v, &close);
    v
}

/// The name to write a live library under so that no other live library
/// (whose names are `taken`) shares it: `desired` when free, else
/// `desired (2)`, `desired (3)`, ... — the first free one.
pub fn resolve_conflict_free_name(desired: &str, taken: &Vec<String>) -> (r: String)
    requires
        taken.len() < u32::MAX - 2,
    ensures
        is_conflict_free_name(desired@, name_views(taken@), r@),
        !name_views(taken@).contains(r@),
{
    let d = chars_of(desired);
    if !names_contain(taken, &d) {
        return String::from_str(desired);
    }
    let mut suffix: u32 = 2;
    while true
        invariant
            taken.len() < u32::MAX - 2,
            d@ == desired@,
            name_views(taken@).contains(desired@),
            2 <= suffix <= taken.len() + 2,
            forall|j: nat| 2 <= j < suffix ==> name_views(taken@).contains(
                #[trigger] suffixed_name(desired@, j),
            ),
        decreases taken.len() + 2 - suffix,
    {
        let candidate = build_suffixed(&d, suffix);
        if !names_contain(taken, &candidate) {
            let r = string_from_chars(&candidate);
            assert(is_conflict_free_name(desired@, name_views(taken@), r@)) by {
                assert(r@ == suffixed_name(desired@, suffix as nat));
            }
            return r;
        }
        proof {
            assert forall|j: nat| 2 <= j <= suffix implies name_views(taken@).contains(
                #[trigger] suffixed_name(desired@, j),
            ) by {}
            lemma_taken_bound(desired@, name_views(taken@), suffix as nat);
        }
        suffix = suffix + 1;
    }
    String::new()
}


/// Where a synced presentation lands in the library table: the library id,
/// whether a tombstoned library is revived (the write stamps this time), and
/// whether the presentation must itself be written tombstoned because its
/// library stays trashed (stamped with the library's own time).
#[derive(Debug, Clone, PartialEq, Eq)]
pub struct LibraryAttach {
    pub library_id: String,
    pub revive_at: Option<i128>,
    pub forced_tombstone_at: Option<i128>,
}

/// Revive-or-keep for an already resolved library row: a live library is
/// used as is; a tombstoned one is revived only when the presentation is
/// strictly newer than the library, otherwise the presentation is forced
/// into the tombstone at the library's own time.
pub open spec fn revive_decision(lib: LibraryRow, presentation_updated_at: i128) -> LibraryAttach {
    if lib.deleted_at is None {
        LibraryAttach { library_id: lib.id, revive_at: None, forced_tombstone_at: None }
    } else if presentation_updated_at > lib.updated_at {
        LibraryAttach {
            library_id: lib.id,
            revive_at: Some(presentation_updated_at),
            forced_tombstone_at: None,
        }
    } else {
        LibraryAttach { library_id: lib.id, revive_at: None, forced_tombstone_at: Some(lib.updated_at) }
    }
}

/// Decides whether a resolved library is used live, revived, or kept
/// tombstoned with the presentation forced into the tombstone.
pub fn revive_or_keep_tombstoned(lib: &LibraryRow, presentation_updated_at: i128) -> (a:
    LibraryAttach)
    ensures
        a == revive_decision(*lib, presentation_updated_at),
{
    if lib.deleted_at.is_none() {
        return LibraryAttach { library_id: lib.id.clone(), revive_at: None, forced_tombstone_at: None };
    }
    if presentation_updated_at > lib.updated_at {
        return LibraryAttach {
            library_id: lib.id.clone(),
            revive_at: Some(presentation_updated_at),
            forced_tombstone_at: None,
        };
    }
    LibraryAttach {
        library_id: lib.id.clone(),
        revive_at: None,
        forced_tombstone_at: Some(lib.updated_at),
    }
}

/// A presentation never ends up live under a trashed library, and a forced
/// tombstone carries the library's own time (never the presentation's), so it
/// never wins last-writer-wins against a peer's live copy.
pub proof fn lemma_forced_tombstone_is_lww_neutral(lib: LibraryRow, presentation_updated_at: i128)
    ensures
        ({
            let a = revive_decision(lib, presentation_updated_at);
            &&& a.library_id == lib.id
            &&& (lib.deleted_at is Some && a.revive_at is None) ==> a.forced_tombstone_at == Some(
                lib.updated_at,
            )
            &&& a.forced_tombstone_at is Some ==> !(presentation_updated_at > lib.updated_at)
            &&& a.revive_at is Some ==> a.forced_tombstone_at is None
        }),
{
}

/// The live library a peer presentation attaches to, never creating one:
/// the row carrying its library's sync identity is authoritative (a
/// tombstoned one means none); only when the identity is unknown locally
/// does the live same-named library count.
pub open spec fn live_library_id(by_sync_id: Option<LibraryRow>, live_by_name: Option<LibraryRow>) -> Option<String> {
    match by_sync_id {
        Some(lib) => if lib.deleted_at is None {
            Some(lib.id)
        } else {
            None
        },
        None => match live_by_name {
            Some(l) => Some(l.id),
            None => None,
        },
    }
}

/// Resolves the live library for a peer presentation (see
/// [`live_library_id`]).
pub fn find_library_id(by_sync_id: Option<&LibraryRow>, live_by_name: Option<&LibraryRow>) -> (r:
    Option<String>)
    ensures
        r == live_library_id(opt_row_spec(by_sync_id), opt_row_spec(live_by_name)),
{
    match by_sync_id {
        Some(lib) => {
            if lib.deleted_at.is_none() {
                Some(lib.id.clone())
            } else {
                None
            }
        },
        None => match live_by_name {
            Some(l) => Some(l.id.clone()),
            None => None,
        },
    }
}

/// The row an optional reference points at.
pub open spec fn opt_row_spec(r: Option<&LibraryRow>) -> Option<LibraryRow> {
    match r {
        Some(x) => Some(*x),
        None => None,
    }
}

/// What resolving the library for a live peer presentation does.
#[derive(Debug, Clone, PartialEq, Eq)]
pub enum EnsureLibraryPlan {
    /// Attach to an existing library (possibly reviving it, possibly forcing
    /// the presentation into its tombstone).
    Attach(LibraryAttach),
    /// Create a fresh live library with that name and a new sync identity.
    CreateLive,
}

/// The library a live peer presentation is written into: by identity first
/// (revive-or-keep), else the live same-named library, else the most recently
/// updated same-named tombstone (revive-or-keep), else a new live library.
pub open spec fn ensure_library_plan(
    by_sync_id: Option<LibraryRow>,
    live_by_name: Option<LibraryRow>,
    latest_tombstone: Option<LibraryRow>,
    presentation_updated_at: i128,
) -> EnsureLibraryPlan {
    match by_sync_id {
        Some(lib) => EnsureLibraryPlan::Attach(revive_decision(lib, presentation_updated_at)),
        None => match live_by_name {
            Some(l) => EnsureLibraryPlan::Attach(
                LibraryAttach { library_id: l.id, revive_at: None, forced_tombstone_at: None },
            ),
            None => match latest_tombstone {
                Some(t) => EnsureLibraryPlan::Attach(revive_decision(t, presentation_updated_at)),
                None => EnsureLibraryPlan::CreateLive,
            },
        },
    }
}

/// Plans the library resolution for a live peer presentation (see
/// [`ensure_library_plan`]).
pub fn plan_ensure_library(
    by_sync_id: Option<&LibraryRow>,
    live_by_name: Option<&LibraryRow>,
    latest_tombstone: Option<&LibraryRow>,
    presentation_updated_at: i128,
) -> (plan: EnsureLibraryPlan)
    ensures
        plan == ensure_library_plan(
            opt_row_spec(by_sync_id),
            opt_row_spec(live_by_name),
            opt_row_spec(latest_tombstone),
            presentation_updated_at,
        ),
{
    if let Some(lib) = by_sync_id {
        return EnsureLibraryPlan::Attach(revive_or_keep_tombstoned(lib, presentation_updated_at));
    }
    if let Some(l) = live_by_name {
        return EnsureLibraryPlan::Attach(
            LibraryAttach { library_id: l.id.clone(), revive_at: None, forced_tombstone_at: None },
        );
    }
    if let Some(t) = latest_tombstone {
        return EnsureLibraryPlan::Attach(revive_or_keep_tombstoned(t, presentation_updated_at));
    }
    EnsureLibraryPlan::CreateLive
}

/// What resolving the library for a brand-new peer tombstone does.
#[derive(Debug, Clone, PartialEq, Eq)]
pub enum TombstoneLibraryPlan {
    /// Attach to this existing library, whatever its state.
    Existing(String),
    /// Create a tombstoned library with that name (never a live shell).
    CreateTombstoned,
}

/// The library a brand-new peer tombstone is written into: by identity
/// (live or not), else the live same-named library, else the most recently
/// updated same-named tombstone, else a new tombstoned library.
pub open spec fn tombstone_library_plan(
    by_sync_id: Option<LibraryRow>,
    live_by_name: Option<LibraryRow>,
    latest_tombstone: Option<LibraryRow>,
) -> TombstoneLibraryPlan {
    match by_sync_id {
        Some(lib) => TombstoneLibraryPlan::Existing(lib.id),
        None => match live_by_name {
            Some(l) => TombstoneLibraryPlan::Existing(l.id),
            None => match latest_tombstone {
                Some(t) => TombstoneLibraryPlan::Existing(t.id),
                None => TombstoneLibraryPlan::CreateTombstoned,
            },
        },
    }
}

/// Plans the library resolution for a brand-new peer tombstone.
pub fn plan_ensure_library_for_tombstone(
    by_sync_id: Option<&LibraryRow>,
    live_by_name: Option<&LibraryRow>,
    latest_tombstone: Option<&LibraryRow>,
) -> (plan: TombstoneLibraryPlan)
    ensures
        plan == tombstone_library_plan(
            opt_row_spec(by_sync_id),
            opt_row_spec(live_by_name),
            opt_row_spec(latest_tombstone),
        ),
{
    if let Some(lib) = by_sync_id {
        return TombstoneLibraryPlan::Existing(lib.id.clone());
    }
    if let Some(l) = live_by_name {
        return TombstoneLibraryPlan::Existing(l.id.clone());
    }
    if let Some(t) = latest_tombstone {
        return TombstoneLibraryPlan::Existing(t.id.clone());
    }
    TombstoneLibraryPlan::CreateTombstoned
}

/// Strict lexicographic order on texts by code point, which is how SQLite's
/// binary collation orders UTF-8 text.
pub open spec fn text_lt(a: Seq<char>, b: Seq<char>) -> bool
    decreases a.len(),
{
    if a.len() == 0 {
        b.len() > 0
    } else if b.len() == 0 {
        false
    } else if a[0] != b[0] {
        (a[0] as u32) < (b[0] as u32)
    } else {
        text_lt(a.drop_first(), b.drop_first())
    }
}

/// Whether `a` is strictly before `b`.
pub fn chars_lt(a: &Vec<char>, b: &Vec<char>) -> (r: bool)
    ensures
        r == text_lt(a@, b@),
{
    let mut i: usize = 0;
    assert(a@.skip(0) == a@);
    assert(b@.skip(0) == b@);
    while i < a.len() && i < b.len() && a[i] == b[i]
        invariant
            i <= a.len(),
            i <= b.len(),
            text_lt(a@, b@) == text_lt(a@.skip(i as int), b@.skip(i as int)),
        decreases a.len() - i,
    {
        assert(a@.skip(i as int).drop_first() =~= a@.skip(i + 1));
        assert(b@.skip(i as int).drop_first() =~= b@.skip(i + 1));
        i = i + 1;
    }
    if i == a.len() {
        i < b.len()
    } else if i == b.len() {
        false
    } else {
        (a[i] as u32) < (b[i] as u32)
    }
}

/// The tombstone sort key: later `updated_at` first, then larger sync id.
pub open spec fn tombstone_newer(a: LibraryRow, b: LibraryRow) -> bool {
    a.updated_at > b.updated_at || (a.updated_at == b.updated_at && text_lt(b.sync_id@, a.sync_id@))
}

/// Whether `row` is a tombstoned library named `name`.
pub open spec fn is_named_tombstone(row: LibraryRow, name: Seq<char>) -> bool {
    row.name@ == name && row.deleted_at is Some
}

/// The most recently updated tombstoned library named `name` (ties broken by
/// the larger sync id, which is stable across peers), as an index into
/// `rows`.
pub fn find_most_recent_tombstoned_library(rows: &Vec<LibraryRow>, name: &str) -> (r: Option<usize>)
    ensures
        r is None ==> forall|i: int| 0 <= i < rows.len() ==> !is_named_tombstone(#[trigger] rows@[i], name@),
        r is Some ==> ({
            let k = r->0 as int;
            &&& 0 <= k < rows.len()
            &&& is_named_tombstone(rows@[k], name@)
            &&& forall|i: int|
                0 <= i < rows.len() && is_named_tombstone(#[trigger] rows@[i], name@) ==> !tombstone_newer(
                    rows@[i],
                    rows@[k],
                )
        }),
{
    let target = chars_of(name);
    let mut best: Option<usize> = None;
    let mut i: usize = 0;
    while i < rows.len()
        invariant
            i <= rows.len(),
            target@ == name@,
            best is None ==> forall|j: int| 0 <= j < i ==> !is_named_tombstone(#[trigger] rows@[j], name@),
            best is Some ==> ({
                let k = best->0 as int;
                &&& 0 <= k < i
                &&& is_named_tombstone(rows@[k], name@)
                &&& forall|j: int|
                    0 <= j < i && is_named_tombstone(#[trigger] rows@[j], name@) ==> !tombstone_newer(
                        rows@[j],
                        rows@[k],
                    )
            }),
        decreases rows.len() - i,
    {
        let row = &rows[i];
        let row_name = chars_of(row.name.as_str());
        if row.deleted_at.is_some() && chars_equal(&row_name, &target) {
            match best {
                None => {
                    proof {
                        lemma_text_lt_irreflexive(rows@[i as int].sync_id@);
                    }
                    best = Some(i);
                },
                Some(b) => {
                    let cur = &rows[b];
                    let newer = if row.updated_at > cur.updated_at {
                        true
                    } else if row.updated_at == cur.updated_at {
                        let a = chars_of(cur.sync_id.as_str());
                        let c = chars_of(row.sync_id.as_str());
                        chars_lt(&a, &c)
                    } else {
                        false
                    };
                    if newer {
                        proof {
                            lemma_tombstone_newer_transitive_total(rows@, b as int, i as int);
                        }
                        best = Some(i);
                    }
                },
            }
        }
        i = i + 1;
    }
    best
}

/// Text order is irreflexive.
pub proof fn lemma_text_lt_irreflexive(a: Seq<char>)
    ensures
        !text_lt(a, a),
    decreases a.len(),
{
    if a.len() > 0 {
        lemma_text_lt_irreflexive(a.drop_first());
    }
}

/// Text order is transitive.
pub proof fn lemma_text_lt_transitive(a: Seq<char>, b: Seq<char>, c: Seq<char>)
    requires
        text_lt(a, b),
        text_lt(b, c),
    ensures
        text_lt(a, c),
    decreases a.len(),
{
    if a.len() > 0 && b.len() > 0 && c.len() > 0 {
        if a[0] == b[0] && b[0] == c[0] {
            lemma_text_lt_transitive(a.drop_first(), b.drop_first(), c.drop_first());
        }
    }
}

/// Text order is total on distinct texts.
pub proof fn lemma_text_lt_total(a: Seq<char>, b: Seq<char>)
    requires
        a != b,
    ensures
        text_lt(a, b) || text_lt(b, a),
    decreases a.len(),
{
    if a.len() > 0 && b.len() > 0 && a[0] == b[0] {
        let ta = a.drop_first();
        let tb = b.drop_first();
        if ta =~= tb {
            assert(a.len() == ta.len() + 1);
            assert(b.len() == tb.len() + 1);
            assert forall|i: int| 0 <= i < a.len() implies a[i] == b[i] by {
                if i > 0 {
                    assert(a[i] == ta[i - 1]);
                    assert(b[i] == tb[i - 1]);
                }
            }
            assert(a =~= b);
        } else {
            lemma_text_lt_total(ta, tb);
        }
    } else if a.len() == 0 && b.len() == 0 {
        assert(a =~= b);
    } else if a.len() > 0 && b.len() > 0 {
        assert(a[0] != b[0]);
        if (a[0] as u32) == (b[0] as u32) {
            vstd::utf8::char_u32_cast(a[0], a[0] as u32);
            vstd::utf8::char_u32_cast(b[0], b[0] as u32);
        }
    }
}

/// Text order is asymmetric.
pub proof fn lemma_text_lt_asymmetric(a: Seq<char>, b: Seq<char>)
    requires
        text_lt(a, b),
    ensures
        !text_lt(b, a),
    decreases a.len(),
{
    if a.len() > 0 && b.len() > 0 && a[0] == b[0] {
        lemma_text_lt_asymmetric(a.drop_first(), b.drop_first());
    }
}

proof fn lemma_tombstone_newer_transitive_total(rows: Seq<LibraryRow>, b: int, i: int)
    requires
        0 <= b < rows.len(),
        0 <= i < rows.len(),
        tombstone_newer(rows[i], rows[b]),
    ensures
        forall|j: int|
            0 <= j < rows.len() && !tombstone_newer(#[trigger] rows[j], rows[b]) ==> !tombstone_newer(
                rows[j],
                rows[i],
            ),
        !tombstone_newer(rows[i], rows[i]),
{
    lemma_text_lt_irreflexive(rows[i].sync_id@);
    assert forall|j: int|
        0 <= j < rows.len() && !tombstone_newer(#[trigger] rows[j], rows[b]) implies !tombstone_newer(
        rows[j],
        rows[i],
    ) by {
        if tombstone_newer(rows[j], rows[i]) {
            if rows[j].updated_at == rows[i].updated_at && rows[i].updated_at == rows[b].updated_at {
                lemma_text_lt_transitive(rows[b].sync_id@, rows[i].sync_id@, rows[j].sync_id@);
            }
        }
    }
}


/// A stored presentation row's sync-relevant columns.
#[derive(Debug, Clone)]
pub struct PresentationRow {
    pub id: String,
    pub library_id: String,
    pub name: String,
    pub sync_id: String,
    pub updated_at: i128,
    pub deleted_at: Option<i128>,
}

/// The identity and clock of one peer song.
#[derive(Debug, Clone)]
pub struct SyncPresentationStamp {
    pub sync_id: String,
    pub name: String,
    pub updated_at: i128,
    pub deleted_at: Option<i128>,
}

/// What applying one peer song does to the local table.
#[derive(Debug, Clone, PartialEq, Eq)]
pub enum PresentationApplyPlan {
    /// Nothing: the local copy is as new or newer.
    Skip,
    /// Overwrite the row carrying the same sync identity, in place.
    Update { local_id: String },
    /// Overwrite the single live same-named row in place, adopting the peer's
    /// sync identity.
    Adopt { local_id: String },
    /// Insert the song with the peer's identity and timestamps.
    Create,
}

/// The outcome reported for a presentation apply plan.
pub open spec fn presentation_plan_outcome(plan: PresentationApplyPlan) -> SyncApplyOutcome {
    match plan {
        PresentationApplyPlan::Skip => SyncApplyOutcome::SkippedNotNewer,
        PresentationApplyPlan::Update { .. } => SyncApplyOutcome::Updated,
        PresentationApplyPlan::Adopt { .. } => SyncApplyOutcome::AdoptedByName,
        PresentationApplyPlan::Create => SyncApplyOutcome::Created,
    }
}

impl PresentationApplyPlan {
    /// The outcome this plan reports.
    pub fn outcome(&self) -> (o: SyncApplyOutcome)
        ensures
            o == presentation_plan_outcome(*self),
    {
        match self {
            PresentationApplyPlan::Skip => SyncApplyOutcome::SkippedNotNewer,
            PresentationApplyPlan::Update { .. } => SyncApplyOutcome::Updated,
            PresentationApplyPlan::Adopt { .. } => SyncApplyOutcome::AdoptedByName,
            PresentationApplyPlan::Create => SyncApplyOutcome::Created,
        }
    }
}

/// Whether `row` is a live presentation named `name`.
pub open spec fn is_live_named(row: PresentationRow, name: Seq<char>) -> bool {
    row.name@ == name && row.deleted_at is None
}

/// The number of rows of `rows` that are live and named `name`.
pub open spec fn live_named_count(rows: Seq<PresentationRow>, name: Seq<char>) -> nat
    decreases rows.len(),
{
    if rows.len() == 0 {
        0
    } else {
        live_named_count(rows.drop_last(), name) + if is_live_named(rows.last(), name) {
            1nat
        } else {
            0nat
        }
    }
}

/// The plan for a peer song, given the local row carrying its sync identity
/// (if any) and the rows of the library it belongs to: match by identity;
/// else adopt the live same-named row, but only when exactly one exists;
/// else create. Matches apply only when the peer is strictly newer.
pub open spec fn presentation_apply_plan(
    incoming: SyncPresentationStamp,
    by_sync_id: Option<PresentationRow>,
    library_rows: Seq<PresentationRow>,
) -> PresentationApplyPlan {
    let deleted = incoming.deleted_at is Some;
    match by_sync_id {
        Some(existing) => if !should_apply(incoming.updated_at, deleted, Some(existing.updated_at)) {
            PresentationApplyPlan::Skip
        } else {
            PresentationApplyPlan::Update { local_id: existing.id }
        },
        None => if live_named_count(library_rows, incoming.name@) == 1 {
            let k = choose|k: int|
                0 <= k < library_rows.len() && is_live_named(library_rows[k], incoming.name@);
            if !should_apply(incoming.updated_at, deleted, Some(library_rows[k].updated_at)) {
                PresentationApplyPlan::Skip
            } else {
                PresentationApplyPlan::Adopt { local_id: library_rows[k].id }
            }
        } else {
            PresentationApplyPlan::Create
        },
    }
}

proof fn lemma_live_named_count_unique(rows: Seq<PresentationRow>, name: Seq<char>, k: int)
    requires
        0 <= k < rows.len(),
        is_live_named(rows[k], name),
        live_named_count(rows, name) == 1,
    ensures
        forall|j: int| 0 <= j < rows.len() && is_live_named(#[trigger] rows[j], name) ==> j == k,
    decreases rows.len(),
{
    lemma_live_named_count_pos(rows.drop_last(), name);
    if k == rows.len() - 1 {
        assert forall|j: int| 0 <= j < rows.len() && is_live_named(#[trigger] rows[j], name) implies j == k by {
            if j < rows.len() - 1 {
                lemma_live_named_count_member(rows.drop_last(), name, j);
            }
        }
    } else {
        if is_live_named(rows.last(), name) {
            lemma_live_named_count_member(rows.drop_last(), name, k);
        }
        lemma_live_named_count_unique(rows.drop_last(), name, k);
        assert forall|j: int| 0 <= j < rows.len() && is_live_named(#[trigger] rows[j], name) implies j == k by {
            if j < rows.len() - 1 {
                assert(rows.drop_last()[j] == rows[j]);
            } else {
                lemma_live_named_count_member(rows.drop_last(), name, k);
            }
        }
    }
}

proof fn lemma_live_named_count_pos(rows: Seq<PresentationRow>, name: Seq<char>)
    ensures
        live_named_count(rows, name) >= 0,
{
}

proof fn lemma_live_named_count_member(rows: Seq<PresentationRow>, name: Seq<char>, k: int)
    requires
        0 <= k < rows.len(),
        is_live_named(rows[k], name),
    ensures
        live_named_count(rows, name) >= 1,
    decreases rows.len(),
{
    if k < rows.len() - 1 {
        lemma_live_named_count_member(rows.drop_last(), name, k);
    }
}

/// Plans the last-writer-wins apply of one peer song (see
/// [`presentation_apply_plan`]).
pub fn plan_apply_sync_presentation(
    incoming: &SyncPresentationStamp,
    by_sync_id: Option<&PresentationRow>,
    library_rows: &Vec<PresentationRow>,
) -> (plan: PresentationApplyPlan)
    ensures
        plan == presentation_apply_plan(
            *incoming,
            match by_sync_id {
                Some(r) => Some(*r),
                None => None,
            },
            library_rows@,
        ),
{
    let deleted = incoming.deleted_at.is_some();
    if let Some(existing) = by_sync_id {
        if !sync_should_apply(incoming.updated_at, deleted, Some(existing.updated_at)) {
            return PresentationApplyPlan::Skip;
        }
        return PresentationApplyPlan::Update { local_id: existing.id.clone() };
    }
    let target = chars_of(incoming.name.as_str());
    let mut count: usize = 0;
    let mut found: usize = 0;
    let mut i: usize = 0;
    while i < library_rows.len()
        invariant
            i <= library_rows.len(),
            target@ == incoming.name@,
            count == live_named_count(library_rows@.take(i as int), incoming.name@),
            count <= i,
            count >= 1 ==> found < i && is_live_named(library_rows@[found as int], incoming.name@),
        decreases library_rows.len() - i,
    {
        let row = &library_rows[i];
        let row_name = chars_of(row.name.as_str());
        assert(library_rows@.take(i + 1).drop_last() == library_rows@.take(i as int));
        if row.deleted_at.is_none() && chars_equal(&row_name, &target) {
            count = count + 1;
            found = i;
        }
        i = i + 1;
    }
    assert(library_rows@.take(library_rows.len() as int) == library_rows@);
    if count == 1 {
        let existing = &library_rows[found];
        proof {
            lemma_live_named_count_unique(library_rows@, incoming.name@, found as int);
            let k = choose|k: int|
                0 <= k < library_rows@.len() && is_live_named(library_rows@[k], incoming.name@);
            assert(k == found as int);
        }
        if !sync_should_apply(incoming.updated_at, deleted, Some(existing.updated_at)) {
            return PresentationApplyPlan::Skip;
        }
        return PresentationApplyPlan::Adopt { local_id: existing.id.clone() };
    }
    PresentationApplyPlan::Create
}

/// Offering a song again after it applied (the local row now carries its
/// sync identity and timestamp) plans nothing.
pub proof fn lemma_presentation_apply_idempotent(
    incoming: SyncPresentationStamp,
    local: PresentationRow,
    library_rows: Seq<PresentationRow>,
)
    requires
        local.updated_at == incoming.updated_at,
    ensures
        presentation_apply_plan(incoming, Some(local), library_rows) == PresentationApplyPlan::Skip,
{
}

/// Adoption by name never guesses: when two or more live rows share the
/// song's name (and no row carries its identity), the song is created.
pub proof fn lemma_ambiguous_name_never_adopts(
    incoming: SyncPresentationStamp,
    library_rows: Seq<PresentationRow>,
)
    requires
        live_named_count(library_rows, incoming.name@) >= 2,
    ensures
        presentation_apply_plan(incoming, None, library_rows) == PresentationApplyPlan::Create,
{
}

/// The presentation row an applied peer song writes (onto the planned local
/// row, or as a new row), with the positions of its slides and whether the
/// playlist entries of the local row must be removed.
#[derive(Debug, Clone)]
pub struct PresentationWrite {
    pub library_id: String,
    pub name: String,
    pub sync_id: String,
    pub updated_at: i128,
    pub deleted_at: Option<i128>,
    pub slide_positions: Vec<i32>,
    pub clean_playlist_entries: bool,
}

/// The `deleted_at` an applied song is written with: the peer's own
/// tombstone; else, for a live song forced into a library that stays
/// trashed, the library's tombstone time; else none.
pub open spec fn written_deleted_at(incoming: SyncPresentationStamp, forced_tombstone_at: Option<i128>) -> Option<
    i128,
> {
    match incoming.deleted_at {
        Some(d) => Some(d),
        None => forced_tombstone_at,
    }
}

/// The row written for an applied peer song under library `library_id`:
/// the peer's name, sync identity and its own `updated_at` (never the local
/// clock); its `deleted_at` (see [`written_deleted_at`]); its `slide_count`
/// slides at positions `0, 1, 2, ...` in the peer's order. A row written as
/// a tombstone loses its playlist entries.
pub fn presentation_write(
    incoming: &SyncPresentationStamp,
    library_id: &str,
    forced_tombstone_at: Option<i128>,
    slide_count: usize,
) -> (w: PresentationWrite)
    requires
        slide_count <= i32::MAX,
    ensures
        w.library_id@ == library_id@,
        w.name@ == incoming.name@,
        w.sync_id@ == incoming.sync_id@,
        w.updated_at == incoming.updated_at,
        w.deleted_at == written_deleted_at(*incoming, forced_tombstone_at),
        w.slide_positions@.len() == slide_count,
        forall|i: int| 0 <= i < slide_count ==> #[trigger] w.slide_positions@[i] == i,
        w.clean_playlist_entries == (w.deleted_at is Some),
{
    let deleted_at = match incoming.deleted_at {
        Some(d) => Some(d),
        None => forced_tombstone_at,
    };
    let mut positions: Vec<i32> = Vec::new();
    let mut i: usize = 0;
    while i < slide_count
        invariant
            i <= slide_count <= i32::MAX,
            positions@.len() == i,
            forall|k: int| 0 <= k < i ==> #[trigger] positions@[k] == k,
        decreases slide_count - i,
    {
        positions.push(i as i32);
        i = i + 1;
    }
    PresentationWrite {
        library_id: String::from_str(library_id),
        name: incoming.name.clone(),
        sync_id: incoming.sync_id.clone(),
        updated_at: incoming.updated_at,
        deleted_at,
        slide_positions: positions,
        clean_playlist_entries: deleted_at.is_some(),
    }
}

/// A row that holds what an applied peer song wrote is never overwritten by
/// the same peer song again (no echo).
pub proof fn lemma_written_presentation_is_stable(
    incoming: SyncPresentationStamp,
    w: PresentationWrite,
    local: PresentationRow,
    library_rows: Seq<PresentationRow>,
)
    requires
        w.updated_at == incoming.updated_at,
        local.updated_at == w.updated_at,
    ensures
        presentation_apply_plan(incoming, Some(local), library_rows) == PresentationApplyPlan::Skip,
{
}

/// What restoring a trashed presentation writes: it becomes live, with its
/// clock moved to `now` so the restore propagates.
#[derive(Debug, Clone, PartialEq, Eq)]
pub struct RestoreWrite {
    pub presentation_id: String,
    pub updated_at: i128,
    pub deleted_at: Option<i128>,
}

/// Restores a trashed presentation at time `now`. Refused as `NotFound`
/// when there is no such presentation or it is not trashed; otherwise its
/// library decides (see [`classify_restore_library`]); on success it is
/// written live with `updated_at == now`.
pub fn plan_restore_presentation(
    presentation: Option<&PresentationRow>,
    library: Option<&LibraryRow>,
    now: i128,
) -> (r: Result<RestoreWrite, RepositoryError>)
    ensures
        (presentation is None || presentation->0.deleted_at is None) ==> r == Err::<
            RestoreWrite,
            RepositoryError,
        >(RepositoryError::NotFound("no trashed presentation to restore")),
        presentation is Some && presentation->0.deleted_at is Some ==> {
            &&& library is None ==> (r matches Err(RepositoryError::NotFound(m)) && m@
                == "the presentation's library no longer exists"@)
            &&& library is Some && library->0.deleted_at is Some ==> (r matches Err(
                RepositoryError::Conflict(m),
            ) && m@ == "the presentation's library is still trashed — restore the library first"@)
            &&& library is Some && library->0.deleted_at is None ==> (r matches Ok(w) && w.presentation_id@
                == presentation->0.id@ && w.updated_at == now && w.deleted_at is None)
        },
{
    let p = match presentation {
        Some(p) => p,
        None => {
            return Err(RepositoryError::NotFound("no trashed presentation to restore"));
        },
    };
    if p.deleted_at.is_none() {
        return Err(RepositoryError::NotFound("no trashed presentation to restore"));
    }
    match classify_restore_library(library) {
        Err(e) => Err(e),
        Ok(()) => Ok(RestoreWrite { presentation_id: p.id.clone(), updated_at: now, deleted_at: None }),
    }
}

/// What renaming a library writes.
#[derive(Debug, Clone)]
pub struct LibraryRename {
    pub library_id: String,
    pub name: String,
    pub updated_at: i128,
}

/// Renames a library at time `now`. Refused as `NotFound` when there is no
/// such library; otherwise the new name is written and the library's clock
/// moves to `now`, so that (with a clock past the stored one) the rename
/// wins last-writer-wins at every peer that still holds the old row.
pub fn plan_rename_library(library: Option<&LibraryRow>, name: &str, now: i128) -> (r: Result<
    LibraryRename,
    RepositoryError,
>)
    ensures
        library is None ==> r == Err::<LibraryRename, RepositoryError>(
            RepositoryError::NotFound("library not found"),
        ),
        library is Some ==> (r matches Ok(w) && w.library_id@ == library->0.id@ && w.name@ == name@
            && w.updated_at == now),
        library is Some && now > library->0.updated_at ==> should_apply(
            now,
            false,
            Some(library->0.updated_at),
        ),
{
    match library {
        None => Err(RepositoryError::NotFound("library not found")),
        Some(l) => Ok(LibraryRename { library_id: l.id.clone(), name: name.to_string(), updated_at: now }),
    }
}

/// The ids of the live presentations of library `library_id`, in row order.
pub open spec fn live_presentation_ids_of(rows: Seq<PresentationRow>, library_id: Seq<char>) -> Seq<
    Seq<char>,
>
    decreases rows.len(),
{
    if rows.len() == 0 {
        Seq::empty()
    } else {
        let prev = live_presentation_ids_of(rows.drop_last(), library_id);
        let p = rows.last();
        if p.library_id@ == library_id && p.deleted_at is None {
            prev.push(p.id@)
        } else {
            prev
        }
    }
}

/// What moving a library to the trash writes: the library and each of its
/// live presentations get `deleted_at == updated_at == stamp`.
#[derive(Debug, Clone)]
pub struct LibraryTrash {
    pub library_id: String,
    pub stamp: i128,
    pub presentation_ids: Vec<String>,
}

/// Moves a library to the trash at time `now`. Refused as `NotFound` when
/// there is no such library; otherwise the library and exactly its live
/// presentations (given all presentation rows) are tombstoned at `now`;
/// presentations already in the trash keep their own deletion time.
pub fn plan_delete_library(
    library: Option<&LibraryRow>,
    presentations: &Vec<PresentationRow>,
    now: i128,
) -> (r: Result<LibraryTrash, RepositoryError>)
    ensures
        library is None ==> r == Err::<LibraryTrash, RepositoryError>(
            RepositoryError::NotFound("library not found"),
        ),
        library is Some ==> (r matches Ok(t) && t.library_id@ == library->0.id@ && t.stamp == now
            && name_views(t.presentation_ids@) == live_presentation_ids_of(
            presentations@,
            library->0.id@,
        )),
{
    let l = match library {
        None => {
            return Err(RepositoryError::NotFound("library not found"));
        },
        Some(l) => l,
    };
    let lid = chars_of(l.id.as_str());
    let mut ids: Vec<String> = Vec::new();
    let mut i: usize = 0;
    while i < presentations.len()
        invariant
            i <= presentations.len(),
            lid@ == l.id@,
            name_views(ids@) == live_presentation_ids_of(presentations@.take(i as int), l.id@),
        decreases presentations.len() - i,
    {
        let p = &presentations[i];
        assert(presentations@.take(i + 1).drop_last() == presentations@.take(i as int));
        let pl = chars_of(p.library_id.as_str());
        if chars_equal(&pl, &lid) && p.deleted_at.is_none() {
            let ghost before = name_views(ids@);
            ids.push(p.id.clone());
            assert(name_views(ids@) =~= before.push(p.id@));
        }
        i = i + 1;
    }
    assert(presentations@.take(presentations.len() as int) == presentations@);
    Ok(LibraryTrash { library_id: l.id.clone(), stamp: now, presentation_ids: ids })
}

} // verus!
