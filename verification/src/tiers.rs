//! The reference-counted registry of per-tier JPEG encoders: which
//! subscription starts an encoder, which release stops it, and which frames
//! an encoder turns into JPEGs.
use std::collections::HashMap;
use vstd::prelude::*;

verus! {

broadcast use vstd::std_specs::hash::group_hash_axioms;

/// What a subscription requires of the encoder of its tier.
#[derive(Debug, Clone, Copy, PartialEq, Eq, Structural)]
pub enum SubscribeAction {
    /// The tier had no subscriber: spawn its encoder.
    SpawnEncoder,
    /// The tier's encoder is already running: share it.
    Reuse,
}

/// What a release requires of the encoder of its tier.
#[derive(Debug, Clone, Copy, PartialEq, Eq, Structural)]
pub enum ReleaseAction {
    /// That was the last subscriber: stop the encoder and forget the tier.
    StopEncoder,
    /// Other subscribers remain: keep the encoder running.
    StillShared,
    /// The tier had no running encoder: nothing to do.
    NotRunning,
}

/// The subscriber count of every tier whose encoder runs.
pub struct TierLedger {
    refcounts: HashMap<u8, usize>,
}

/// The counts after one more subscriber of `tier`.
pub open spec fn subscribed(m: Map<u8, usize>, tier: u8) -> Map<u8, usize> {
    if m.contains_key(tier) {
        m.insert(tier, (m[tier] + 1) as usize)
    } else {
        m.insert(tier, 1)
    }
}

/// The counts after one subscriber of `tier` left.
pub open spec fn released(m: Map<u8, usize>, tier: u8) -> Map<u8, usize> {
    if !m.contains_key(tier) {
        m
    } else if m[tier] <= 1 {
        m.remove(tier)
    } else {
        m.insert(tier, (m[tier] - 1) as usize)
    }
}

/// Every running tier has at least one subscriber.
pub open spec fn counts_positive(m: Map<u8, usize>) -> bool {
    forall|t: u8| m.contains_key(t) ==> m[t] >= 1
}

impl View for TierLedger {
    type V = Map<u8, usize>;

    closed spec fn view(&self) -> Map<u8, usize> {
        self.refcounts@
    }
}

impl TierLedger {
    /// The ledger's invariant: finitely many tiers are tracked, each with a
    /// subscriber.
    pub open spec fn wf(&self) -> bool {
        &&& self@.dom().finite()
        &&& counts_positive(self@)
    }

    /// A ledger with no running encoder.
    pub fn new() -> (l: Self)
        ensures
            l.wf(),
            l@ == Map::<u8, usize>::empty(),
    {
        TierLedger { refcounts: HashMap::new() }
    }

    /// Registers a subscriber of `tier`; the first subscriber spawns the
    /// tier's encoder.
    pub fn subscribe(&mut self, tier: u8) -> (action: SubscribeAction)
        requires
            old(self).wf(),
            old(self)@.contains_key(tier) ==> old(self)@[tier] < usize::MAX,
        ensures
            final(self).wf(),
            final(self)@ == subscribed(old(self)@, tier),
            final(self)@.dom() == old(self)@.dom().insert(tier),
            action == (if old(self)@.contains_key(tier) {
                SubscribeAction::Reuse
            } else {
                SubscribeAction::SpawnEncoder
            }),
    {
        match self.refcounts.get(&tier) {
            Some(count) => {
                let next = *count + 1;
                self.refcounts.insert(tier, next);
                SubscribeAction::Reuse
            },
            None => {
                self.refcounts.insert(tier, 1);
                SubscribeAction::SpawnEncoder
            },
        }
    }

    /// Unregisters a subscriber of `tier`; the last one stops the encoder.
    pub fn release(&mut self, tier: u8) -> (action: ReleaseAction)
        requires
            old(self).wf(),
        ensures
            final(self).wf(),
            final(self)@ == released(old(self)@, tier),
            action == (if !old(self)@.contains_key(tier) {
                ReleaseAction::NotRunning
            } else if old(self)@[tier] <= 1 {
                ReleaseAction::StopEncoder
            } else {
                ReleaseAction::StillShared
            }),
    {
        match self.refcounts.get(&tier) {
            Some(count) => {
                let c = *count;
                if c <= 1 {
                    self.refcounts.remove(&tier);
                    ReleaseAction::StopEncoder
                } else {
                    self.refcounts.insert(tier, c - 1);
                    ReleaseAction::StillShared
                }
            },
            None => ReleaseAction::NotRunning,
        }
    }

    /// The number of tiers whose encoder runs.
    pub fn active_tier_count(&self) -> (n: usize)
        ensures
            n == self@.len(),
    {
        self.refcounts.len()
    }

    /// The subscriber count of `tier` (0 when its encoder is not running).
    pub fn subscribers(&self, tier: u8) -> (n: usize)
        ensures
            self@.contains_key(tier) ==> n == self@[tier],
            !self@.contains_key(tier) ==> n == 0,
    {
        match self.refcounts.get(&tier) {
            Some(c) => *c,
            None => 0,
        }
    }
}

/// Releasing a subscription undoes subscribing it.
pub proof fn lemma_subscribe_then_release(m: Map<u8, usize>, tier: u8)
    requires
        counts_positive(m),
        m.contains_key(tier) ==> m[tier] < usize::MAX,
    ensures
        released(subscribed(m, tier), tier) =~= m,
{
}

/// Subscribing and releasing one tier leaves every other tier alone.
pub proof fn lemma_other_tiers_untouched(m: Map<u8, usize>, tier: u8, other: u8)
    requires
        tier != other,
    ensures
        subscribed(m, tier).contains_key(other) == m.contains_key(other),
        released(m, tier).contains_key(other) == m.contains_key(other),
        m.contains_key(other) ==> subscribed(m, tier)[other] == m[other],
        m.contains_key(other) ==> released(m, tier)[other] == m[other],
{
}

/// The first subscriber of a tier adds one running encoder; later ones add
/// none.
pub proof fn lemma_subscribe_counts_tiers(m: Map<u8, usize>, tier: u8)
    requires
        m.dom().finite(),
    ensures
        subscribed(m, tier).dom().finite(),
        subscribed(m, tier).len() == m.len() + if m.contains_key(tier) {
            0int
        } else {
            1int
        },
{
    assert(subscribed(m, tier).dom() =~= m.dom().insert(tier));
}

/// After a subscription to `tier`, the tiers with a running encoder are the
/// tiers that had one plus `tier` (an already running tier reuses its
/// encoder), so the running encoders number `|active ∪ {tier}|`.
pub proof fn lemma_subscribe_active_tiers(m: Map<u8, usize>, tier: u8)
    requires
        m.dom().finite(),
    ensures
        subscribed(m, tier).dom() == m.dom().insert(tier),
        subscribed(m, tier).len() == m.dom().insert(tier).len(),
{
    assert(subscribed(m, tier).dom() =~= m.dom().insert(tier));
}

/// The last subscriber leaving a tier stops one running encoder; any other
/// release stops none.
pub proof fn lemma_release_counts_tiers(m: Map<u8, usize>, tier: u8)
    requires
        m.dom().finite(),
    ensures
        released(m, tier).dom().finite(),
        released(m, tier).len() == m.len() - if m.contains_key(tier) && m[tier] <= 1 {
            1int
        } else {
            0int
        },
{
    if m.contains_key(tier) && m[tier] <= 1 {
        assert(released(m, tier).dom() =~= m.dom().remove(tier));
    } else if m.contains_key(tier) {
        assert(released(m, tier).dom() =~= m.dom());
    }
}

/// The colour layout of a raw NDI frame, by its FourCC.
#[derive(Debug, Clone, Copy, PartialEq, Eq, Structural)]
pub enum FrameLayout {
    /// BGRA or BGRX: encoded as is.
    Bgra,
    /// UYVY: converted to BGRA first.
    Uyvy,
    /// Anything else: skipped.
    Unsupported,
}

/// The little-endian FourCC `BGRA`.
pub const FOURCC_BGRA: u32 = 0x4152_4742;

/// The little-endian FourCC `BGRX`.
pub const FOURCC_BGRX: u32 = 0x5852_4742;

/// The little-endian FourCC `UYVY`.
pub const FOURCC_UYVY: u32 = 0x5956_5955;

/// The layout of a frame with this FourCC.
pub fn classify_fourcc(fourcc: u32) -> (l: FrameLayout)
    ensures
        (fourcc == FOURCC_BGRA || fourcc == FOURCC_BGRX) ==> l == FrameLayout::Bgra,
        fourcc == FOURCC_UYVY ==> l == FrameLayout::Uyvy,
        !(fourcc == FOURCC_BGRA || fourcc == FOURCC_BGRX || fourcc == FOURCC_UYVY) ==> l
            == FrameLayout::Unsupported,
{
    if fourcc == FOURCC_BGRA || fourcc == FOURCC_BGRX {
        FrameLayout::Bgra
    } else if fourcc == FOURCC_UYVY {
        FrameLayout::Uyvy
    } else {
        FrameLayout::Unsupported
    }
}

/// Counts one more incoming frame (wrapping at `u32::MAX`) and says whether
/// the tier encodes it: only every `modulus`-th frame is encoded.
pub fn next_frame(frame_index: u32, modulus: u32) -> (r: (u32, bool))
    requires
        modulus > 0,
    ensures
        r.0 == vstd::wrapping::u32_specs::wrapping_add(frame_index, 1),
        r.1 == (r.0 % modulus == 0),
{
    let next = frame_index.wrapping_add(1);
    (next, next % modulus == 0)
}

} // verus!
