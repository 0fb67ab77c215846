use presenter_persistence::tiers::{
    classify_fourcc, next_frame, FrameLayout, ReleaseAction, SubscribeAction, TierLedger,
};

const L0: u8 = 0;
const L3: u8 = 3;

#[test]
fn subscribe_spawns_one_encoder_per_tier() {
    let mut ledger = TierLedger::new();
    assert_eq!(ledger.subscribe(L0), SubscribeAction::SpawnEncoder);
    assert_eq!(ledger.subscribe(L0), SubscribeAction::Reuse, "second L0 sub must reuse encoder");
    assert_eq!(ledger.subscribe(L3), SubscribeAction::SpawnEncoder);
    assert_eq!(ledger.active_tier_count(), 2);
    assert_eq!(ledger.subscribers(L0), 2);
}

#[test]
fn dropping_last_subscription_stops_encoder() {
    let mut ledger = TierLedger::new();
    ledger.subscribe(L0);
    ledger.subscribe(L0);
    assert_eq!(ledger.release(L0), ReleaseAction::StillShared);
    assert_eq!(ledger.active_tier_count(), 1, "still 1 sub left");
    assert_eq!(ledger.release(L0), ReleaseAction::StopEncoder);
    assert_eq!(ledger.active_tier_count(), 0);
    assert_eq!(ledger.release(L0), ReleaseAction::NotRunning);
}

#[test]
fn frame_skip_keeps_one_in_modulus() {
    let mut index = 0u32;
    let mut emitted = 0;
    for _ in 0..15 {
        let (next, encode) = next_frame(index, 3);
        index = next;
        if encode {
            emitted += 1;
        }
    }
    assert_eq!(emitted, 5);
    assert_eq!(next_frame(u32::MAX, 3), (0, true));
    assert_eq!(next_frame(7, 1), (8, true));
}

#[test]
fn fourcc_layouts() {
    assert_eq!(classify_fourcc(u32::from_le_bytes(*b"BGRA")), FrameLayout::Bgra);
    assert_eq!(classify_fourcc(u32::from_le_bytes(*b"BGRX")), FrameLayout::Bgra);
    assert_eq!(classify_fourcc(u32::from_le_bytes(*b"UYVY")), FrameLayout::Uyvy);
    assert_eq!(classify_fourcc(u32::from_le_bytes(*b"NV12")), FrameLayout::Unsupported);
}
