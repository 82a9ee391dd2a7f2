use std::sync::atomic::{AtomicU32, Ordering};
use xcm::drop_assets::{ClaimAssets, Contains, DropAssets, FilterAssets, FilterOrigin};
use xcm::v1::AssetId::Abstract;
use xcm::v1::Fungibility::Fungible;
use xcm::v1::Junction::Parachain;
use xcm::v1::{MultiAsset, MultiAssets, MultiLocation};

/// What the claim handlers were asked, added up.
static ASKED: AtomicU32 = AtomicU32::new(0);

struct Trap;

impl DropAssets for Trap {
    fn drop_assets(_origin: &MultiLocation, assets: MultiAssets) -> u64 {
        100 + assets.len() as u64
    }
}

struct NonEmpty;

impl Contains<MultiAssets> for NonEmpty {
    fn contains(t: &MultiAssets) -> bool {
        !t.is_none()
    }
}

struct FromParents;

impl Contains<MultiLocation> for FromParents {
    fn contains(t: &MultiLocation) -> bool {
        t.parents > 0
    }
}

struct Never;

impl ClaimAssets for Never {
    fn claim_assets(_: &MultiLocation, _: &MultiLocation, _: &MultiAssets) -> bool {
        ASKED.fetch_add(1, Ordering::SeqCst);
        false
    }
}

struct Always;

impl ClaimAssets for Always {
    fn claim_assets(_: &MultiLocation, _: &MultiLocation, _: &MultiAssets) -> bool {
        ASKED.fetch_add(10, Ordering::SeqCst);
        true
    }
}

fn some_assets() -> MultiAssets {
    MultiAssets::from(MultiAsset { id: Abstract(vec![1]), fun: Fungible(5) })
}

#[test]
fn the_unit_handler_discards_at_no_cost() {
    assert_eq!(<() as DropAssets>::drop_assets(&MultiLocation::here(), some_assets()), 0);
}

#[test]
fn filters_hand_on_what_they_hold() {
    let here = MultiLocation::here();
    let parent = MultiLocation::new(1, vec![Parachain(1)]);
    assert_eq!(FilterAssets::<Trap, NonEmpty>::drop_assets(&here, some_assets()), 101);
    assert_eq!(FilterAssets::<Trap, NonEmpty>::drop_assets(&here, MultiAssets::new()), 0);
    assert_eq!(FilterOrigin::<Trap, FromParents>::drop_assets(&parent, some_assets()), 101);
    assert_eq!(FilterOrigin::<Trap, FromParents>::drop_assets(&here, some_assets()), 0);
    // and compose
    assert_eq!(
        FilterOrigin::<FilterAssets<Trap, NonEmpty>, FromParents>::drop_assets(
            &parent,
            MultiAssets::new()
        ),
        0
    );
}

#[test]
fn claim_handlers_are_tried_in_order_until_one_claims() {
    let here = MultiLocation::here();
    let what = some_assets();
    assert!(!<() as ClaimAssets>::claim_assets(&here, &here, &what));

    ASKED.store(0, Ordering::SeqCst);
    assert!(<(Never, Always) as ClaimAssets>::claim_assets(&here, &here, &what));
    assert_eq!(ASKED.load(Ordering::SeqCst), 11);

    // the first that claims ends the trial
    ASKED.store(0, Ordering::SeqCst);
    assert!(<(Always, Never) as ClaimAssets>::claim_assets(&here, &here, &what));
    assert_eq!(ASKED.load(Ordering::SeqCst), 10);

    ASKED.store(0, Ordering::SeqCst);
    assert!(!<(Never, (Never, (Never,))) as ClaimAssets>::claim_assets(&here, &here, &what));
    assert_eq!(ASKED.load(Ordering::SeqCst), 3);
    assert!(<(Always,) as ClaimAssets>::claim_assets(&here, &here, &what));
}
