//! What becomes of assets that a message leaves behind, and how they are
//! claimed again.

use crate::latest::{MultiAssets, MultiLocation};
use core::marker::PhantomData;
use vstd::prelude::*;

verus! {

/// The cost of a piece of bookkeeping.
pub type Weight = u64;

/// A test of set membership that a runtime provides.
pub trait Contains<T> {
    /// Whether `t` belongs to the set.
    fn contains(t: &T) -> bool;
}

/// Define a handler for when some non-empty assets are dropped: a message
/// ended and left them in holding.
pub trait DropAssets {
    /// Handler for receiving dropped assets. Returns the weight taken by
    /// the bookkeeping.
    fn drop_assets(origin: &MultiLocation, assets: MultiAssets) -> Weight;
}

impl DropAssets for () {
    /// Discards the assets at no cost.
    fn drop_assets(_origin: &MultiLocation, _assets: MultiAssets) -> (weight: Weight)
        ensures
            weight == 0,
    {
        0
    }
}

/// Morph a given `DropAssets` implementation into one which can filter
/// based on assets: `D` takes only what `A` holds.
pub struct FilterAssets<D, A>(PhantomData<(D, A)>);

impl<D: DropAssets, A: Contains<MultiAssets>> DropAssets for FilterAssets<D, A> {
    /// Hands the assets to `D` where `A` holds them, and gives what `D`
    /// gave; gives `0`, and drops them unrecorded, where `A` does not.
    fn drop_assets(origin: &MultiLocation, assets: MultiAssets) -> (weight: Weight)
        ensures
            exists|accepted: bool| #[trigger]
                call_ensures(A::contains, (&assets,), accepted) && if accepted {
                    call_ensures(D::drop_assets, (origin, assets), weight)
                } else {
                    weight == 0
                },
    {
        if A::contains(&assets) {
            D::drop_assets(origin, assets)
        } else {
            0
        }
    }
}

/// Morph a given `DropAssets` implementation into one which can filter
/// based on origin: `D` takes only from the origins that `O` holds.
pub struct FilterOrigin<D, O>(PhantomData<(D, O)>);

impl<D: DropAssets, O: Contains<MultiLocation>> DropAssets for FilterOrigin<D, O> {
    /// Hands the assets to `D` where `O` holds the origin, and gives what
    /// `D` gave; gives `0`, and drops them unrecorded, where `O` does not.
    fn drop_assets(origin: &MultiLocation, assets: MultiAssets) -> (weight: Weight)
        ensures
            exists|accepted: bool| #[trigger]
                call_ensures(O::contains, (origin,), accepted) && if accepted {
                    call_ensures(D::drop_assets, (origin, assets), weight)
                } else {
                    weight == 0
                },
    {
        if O::contains(origin) {
            D::drop_assets(origin, assets)
        } else {
            0
        }
    }
}

/// Define any handlers for the `AssetClaim` instruction.
pub trait ClaimAssets {
    /// Claim any assets available to `origin` and return them in a single
    /// `Assets` value, together with the weight used by this operation.
    fn claim_assets(origin: &MultiLocation, ticket: &MultiLocation, what: &MultiAssets) -> bool;
}

impl ClaimAssets for () {
    /// No handler: nothing is claimed.
    fn claim_assets(_origin: &MultiLocation, _ticket: &MultiLocation, _what: &MultiAssets) -> (r:
        bool)
        ensures
            !r,
    {
        false
    }
}

impl<A: ClaimAssets> ClaimAssets for (A, ) {
    /// What the one handler says.
    fn claim_assets(origin: &MultiLocation, ticket: &MultiLocation, what: &MultiAssets) -> (r: bool)
        ensures
            call_ensures(A::claim_assets, (origin, ticket, what), r),
    {
        A::claim_assets(origin, ticket, what)
    }
}

impl<A: ClaimAssets, B: ClaimAssets> ClaimAssets for (A, B) {
    /// The handlers are tried in order, and the first that claims ends the
    /// trial: `B` is asked only where `A` did not claim.
    fn claim_assets(origin: &MultiLocation, ticket: &MultiLocation, what: &MultiAssets) -> (r: bool)
        ensures
            exists|first: bool| #[trigger]
                call_ensures(A::claim_assets, (origin, ticket, what), first) && if first {
                    r
                } else {
                    call_ensures(B::claim_assets, (origin, ticket, what), r)
                },
    {
        if A::claim_assets(origin, ticket, what) {
            return true;
        }
        B::claim_assets(origin, ticket, what)
    }
}

} // verus!
