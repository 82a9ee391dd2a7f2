//! Assets, wildcards and filters out of the values of the first
//! generation.

use crate::seqs::{lemma_views_push, lemma_views_subrange, views};
use crate::v0::multi_asset::{MultiAsset as MultiAsset0, MultiAssetView as MultiAssetView0};
use crate::v0::multi_location::location_of_path;
use crate::v1::multiasset::{
    AssetId, AssetIdView, Fungibility, FungibilityView, MultiAsset, MultiAssetFilter,
    MultiAssetFilterView, MultiAssetView, MultiAssets, WildFungibility, WildMultiAsset,
    WildMultiAssetView,
};
use crate::v1::multilocation::MultiLocation;
use crate::v1::normal::normalize;
use vstd::prelude::*;

verus! {

/// The asset that a value of the first generation stands for. `None` for
/// a wildcard, for `Nothing`, and where a path stands for no location.
pub open spec fn asset_from_v0(old: MultiAssetView0) -> Option<MultiAssetView> {
    match old {
        MultiAssetView0::ConcreteFungible { id, amount } => match location_of_path(id) {
            Some(location) => Some(
                MultiAssetView {
                    id: AssetIdView::Concrete(location),
                    fun: FungibilityView::Fungible(amount),
                },
            ),
            None => None,
        },
        MultiAssetView0::ConcreteNonFungible { class, instance } => match location_of_path(class) {
            Some(location) => Some(
                MultiAssetView {
                    id: AssetIdView::Concrete(location),
                    fun: FungibilityView::NonFungible(instance),
                },
            ),
            None => None,
        },
        MultiAssetView0::AbstractFungible { id, amount } => Some(
            MultiAssetView { id: AssetIdView::Abstract(id), fun: FungibilityView::Fungible(amount) },
        ),
        MultiAssetView0::AbstractNonFungible { class, instance } => Some(
            MultiAssetView {
                id: AssetIdView::Abstract(class),
                fun: FungibilityView::NonFungible(instance),
            },
        ),
        _ => None,
    }
}

/// The wildcard that a value of the first generation stands for. `None`
/// for an asset, for `Nothing`, for the wildcards of a whole kind, which
/// have no equal here, and where a path stands for no location.
pub open spec fn wild_from_v0(old: MultiAssetView0) -> Option<WildMultiAssetView> {
    match old {
        MultiAssetView0::All => Some(WildMultiAssetView::All),
        MultiAssetView0::AllConcreteFungible { id } => match location_of_path(id) {
            Some(location) => Some(
                WildMultiAssetView::AllOf {
                    id: AssetIdView::Concrete(location),
                    fun: WildFungibility::Fungible,
                },
            ),
            None => None,
        },
        MultiAssetView0::AllConcreteNonFungible { class } => match location_of_path(class) {
            Some(location) => Some(
                WildMultiAssetView::AllOf {
                    id: AssetIdView::Concrete(location),
                    fun: WildFungibility::NonFungible,
                },
            ),
            None => None,
        },
        MultiAssetView0::AllAbstractFungible { id } => Some(
            WildMultiAssetView::AllOf { id: AssetIdView::Abstract(id), fun: WildFungibility::Fungible },
        ),
        MultiAssetView0::AllAbstractNonFungible { class } => Some(
            WildMultiAssetView::AllOf {
                id: AssetIdView::Abstract(class),
                fun: WildFungibility::NonFungible,
            },
        ),
        _ => None,
    }
}

/// Whether `old` can stand in a list of assets: it is `Nothing`, which is
/// left out, or stands for an asset.
pub open spec fn listable(old: MultiAssetView0) -> bool {
    old is Nothing || asset_from_v0(old) is Some
}

/// The assets that the values of `s` stand for, in order, `Nothing` left
/// out.
pub open spec fn kept_from_v0(s: Seq<MultiAssetView0>) -> Seq<MultiAssetView>
    decreases s.len(),
{
    if s.len() == 0 {
        Seq::empty()
    } else if s.last() is Nothing {
        kept_from_v0(s.drop_last())
    } else {
        kept_from_v0(s.drop_last()).push(asset_from_v0(s.last()).unwrap())
    }
}

/// The collection that a list of the first generation stands for: the
/// assets that its values stand for, in normal form. `None` where one of
/// the values is a wildcard or has a path that stands for no location.
pub open spec fn assets_from_v0(s: Seq<MultiAssetView0>) -> Option<Seq<MultiAssetView>> {
    if forall|i: int| 0 <= i < s.len() ==> listable(#[trigger] s[i]) {
        Some(normalize(kept_from_v0(s)))
    } else {
        None
    }
}

/// The filter that a list of the first generation stands for: the wildcard
/// that a list of one wildcard holds, or else the collection of its
/// assets.
pub open spec fn filter_from_v0(s: Seq<MultiAssetView0>) -> Option<MultiAssetFilterView> {
    if s.len() == 1 && s[0].is_wildcard() {
        match wild_from_v0(s[0]) {
            Some(wild) => Some(MultiAssetFilterView::Wild(wild)),
            None => None,
        }
    } else {
        match assets_from_v0(s) {
            Some(assets) => Some(MultiAssetFilterView::Definite(assets)),
            None => None,
        }
    }
}

impl TryFrom<MultiAsset0> for MultiAsset {
    type Error = ();

    /// The asset that `old` stands for. Fails for a wildcard, for
    /// `Nothing`, and where a path stands for no location.
    fn try_from(old: MultiAsset0) -> (r: Result<MultiAsset, ()>)
        ensures
            match asset_from_v0(old@) {
                Some(asset) => r matches Ok(found) && found@ == asset,
                None => r is Err,
            },
    {
        match old {
            MultiAsset0::ConcreteFungible { id, amount } => match MultiLocation::try_from(id) {
                Ok(location) => Ok(
                    MultiAsset { id: AssetId::Concrete(location), fun: Fungibility::Fungible(amount) },
                ),
                Err(()) => Err(()),
            },
            MultiAsset0::ConcreteNonFungible { class, instance } => match MultiLocation::try_from(
                class,
            ) {
                Ok(location) => Ok(
                    MultiAsset {
                        id: AssetId::Concrete(location),
                        fun: Fungibility::NonFungible(instance),
                    },
                ),
                Err(()) => Err(()),
            },
            MultiAsset0::AbstractFungible { id, amount } => Ok(
                MultiAsset { id: AssetId::Abstract(id), fun: Fungibility::Fungible(amount) },
            ),
            MultiAsset0::AbstractNonFungible { class, instance } => Ok(
                MultiAsset { id: AssetId::Abstract(class), fun: Fungibility::NonFungible(instance) },
            ),
            _ => Err(()),
        }
    }
}

/// The conversion gives a value made anew, which no `spec` function can
/// name: it is specified by the `ensures` of its own, over views.
impl vstd::std_specs::convert::TryFromSpecImpl<MultiAsset0> for MultiAsset {
    open spec fn obeys_try_from_spec() -> bool {
        false
    }

    open spec fn try_from_spec(old: MultiAsset0) -> Result<MultiAsset, ()> {
        arbitrary()
    }
}

impl TryFrom<MultiAsset0> for Option<MultiAsset> {
    type Error = ();

    /// No asset for `Nothing`, else the asset that `old` stands for.
    fn try_from(old: MultiAsset0) -> (r: Result<Option<MultiAsset>, ()>)
        ensures
            old@ is Nothing ==> r == Ok::<Option<MultiAsset>, ()>(None),
            !(old@ is Nothing) ==> match asset_from_v0(old@) {
                Some(asset) => r matches Ok(Some(found)) && found@ == asset,
                None => r is Err,
            },
    {
        match old {
            MultiAsset0::Nothing => Ok(None),
            x => match MultiAsset::try_from(x) {
                Ok(asset) => Ok(Some(asset)),
                Err(()) => Err(()),
            },
        }
    }
}

/// The conversion gives a value made anew, which no `spec` function can
/// name: it is specified by the `ensures` of its own, over views.
impl vstd::std_specs::convert::TryFromSpecImpl<MultiAsset0> for Option<MultiAsset> {
    open spec fn obeys_try_from_spec() -> bool {
        false
    }

    open spec fn try_from_spec(old: MultiAsset0) -> Result<Option<MultiAsset>, ()> {
        arbitrary()
    }
}

impl TryFrom<Vec<MultiAsset0>> for MultiAsset {
    type Error = ();

    /// The asset that a list of one value stands for. Fails for a list of
    /// any other length.
    fn try_from(old: Vec<MultiAsset0>) -> (r: Result<MultiAsset, ()>)
        ensures
            old@.len() != 1 ==> r is Err,
            old@.len() == 1 ==> match asset_from_v0(old@[0]@) {
                Some(asset) => r matches Ok(found) && found@ == asset,
                None => r is Err,
            },
    {
        let mut old = old;
        if old.len() == 1 {
            MultiAsset::try_from(old.remove(0))
        } else {
            Err(())
        }
    }
}

/// The conversion gives a value made anew, which no `spec` function can
/// name: it is specified by the `ensures` of its own, over views.
impl vstd::std_specs::convert::TryFromSpecImpl<Vec<MultiAsset0>> for MultiAsset {
    open spec fn obeys_try_from_spec() -> bool {
        false
    }

    open spec fn try_from_spec(old: Vec<MultiAsset0>) -> Result<MultiAsset, ()> {
        arbitrary()
    }
}

impl TryFrom<Vec<MultiAsset0>> for MultiAssets {
    type Error = ();

    /// The collection that a list stands for: the assets that its values
    /// stand for, `Nothing` left out, in normal form. Fails where one of
    /// the values is a wildcard or has a path that stands for no location.
    fn try_from(old: Vec<MultiAsset0>) -> (r: Result<MultiAssets, ()>)
        ensures
            match assets_from_v0(views(old@)) {
                Some(assets) => r matches Ok(found) && found@ == assets,
                None => r is Err,
            },
    {
        let ghost whole = views(old@);
        let ghost mut done: int = 0;
        let mut rest = old;
        let mut out: Vec<MultiAsset> = Vec::new();
        proof {
            assert(views(rest@) =~= whole.skip(0));
            assert(whole.take(0) =~= Seq::<MultiAssetView0>::empty());
            assert(views(out@) =~= Seq::<MultiAssetView>::empty());
        }
        while rest.len() > 0
            invariant
                whole == views(old@),
                0 <= done <= whole.len(),
                done + rest@.len() == whole.len(),
                views(rest@) == whole.skip(done),
                forall|j: int| 0 <= j < done ==> listable(#[trigger] whole[j]),
                views(out@) == kept_from_v0(whole.take(done)),
            decreases rest@.len(),
        {
            let ghost left = rest@;
            let ghost before = out@;
            assert(views(left)[0] == whole.skip(done)[0]);
            let value = rest.remove(0);
            proof {
                assert(rest@ =~= left.subrange(1, left.len() as int));
                lemma_views_subrange(left, 1, left.len() as int);
                assert(views(rest@) =~= whole.skip(done + 1));
                assert(whole.take(done + 1).drop_last() =~= whole.take(done));
                assert(whole.take(done + 1).last() == whole[done]);
            }
            match Option::<MultiAsset>::try_from(value) {
                Ok(Some(asset)) => {
                    out.push(asset);
                    proof {
                        lemma_views_push(before, asset);
                    }
                },
                Ok(None) => {},
                Err(()) => {
                    assert(!listable(whole[done]));
                    return Err(());
                },
            }
            proof {
                done = done + 1;
            }
        }
        proof {
            assert(whole.take(done) =~= whole);
        }
        Ok(MultiAssets::from(out))
    }
}

/// The conversion gives a value made anew, which no `spec` function can
/// name: it is specified by the `ensures` of its own, over views.
impl vstd::std_specs::convert::TryFromSpecImpl<Vec<MultiAsset0>> for MultiAssets {
    open spec fn obeys_try_from_spec() -> bool {
        false
    }

    open spec fn try_from_spec(old: Vec<MultiAsset0>) -> Result<MultiAssets, ()> {
        arbitrary()
    }
}

impl TryFrom<MultiAsset0> for WildMultiAsset {
    type Error = ();

    /// The wildcard that `old` stands for. Fails for an asset, for
    /// `Nothing`, for the wildcards of a whole kind, and where a path
    /// stands for no location.
    fn try_from(old: MultiAsset0) -> (r: Result<WildMultiAsset, ()>)
        ensures
            match wild_from_v0(old@) {
                Some(wild) => r matches Ok(found) && found@ == wild,
                None => r is Err,
            },
    {
        match old {
            MultiAsset0::All => Ok(WildMultiAsset::All),
            MultiAsset0::AllConcreteFungible { id } => match MultiLocation::try_from(id) {
                Ok(location) => Ok(
                    WildMultiAsset::AllOf {
                        id: AssetId::Concrete(location),
                        fun: WildFungibility::Fungible,
                    },
                ),
                Err(()) => Err(()),
            },
            MultiAsset0::AllConcreteNonFungible { class } => match MultiLocation::try_from(class) {
                Ok(location) => Ok(
                    WildMultiAsset::AllOf {
                        id: AssetId::Concrete(location),
                        fun: WildFungibility::NonFungible,
                    },
                ),
                Err(()) => Err(()),
            },
            MultiAsset0::AllAbstractFungible { id } => Ok(
                WildMultiAsset::AllOf { id: AssetId::Abstract(id), fun: WildFungibility::Fungible },
            ),
            MultiAsset0::AllAbstractNonFungible { class } => Ok(
                WildMultiAsset::AllOf {
                    id: AssetId::Abstract(class),
                    fun: WildFungibility::NonFungible,
                },
            ),
            _ => Err(()),
        }
    }
}

/// The conversion gives a value made anew, which no `spec` function can
/// name: it is specified by the `ensures` of its own, over views.
impl vstd::std_specs::convert::TryFromSpecImpl<MultiAsset0> for WildMultiAsset {
    open spec fn obeys_try_from_spec() -> bool {
        false
    }

    open spec fn try_from_spec(old: MultiAsset0) -> Result<WildMultiAsset, ()> {
        arbitrary()
    }
}

impl TryFrom<Vec<MultiAsset0>> for WildMultiAsset {
    type Error = ();

    /// The wildcard that a list of one value stands for. Fails for a list
    /// of any other length.
    fn try_from(old: Vec<MultiAsset0>) -> (r: Result<WildMultiAsset, ()>)
        ensures
            old@.len() != 1 ==> r is Err,
            old@.len() == 1 ==> match wild_from_v0(old@[0]@) {
                Some(wild) => r matches Ok(found) && found@ == wild,
                None => r is Err,
            },
    {
        let mut old = old;
        if old.len() == 1 {
            WildMultiAsset::try_from(old.remove(0))
        } else {
            Err(())
        }
    }
}

/// The conversion gives a value made anew, which no `spec` function can
/// name: it is specified by the `ensures` of its own, over views.
impl vstd::std_specs::convert::TryFromSpecImpl<Vec<MultiAsset0>> for WildMultiAsset {
    open spec fn obeys_try_from_spec() -> bool {
        false
    }

    open spec fn try_from_spec(old: Vec<MultiAsset0>) -> Result<WildMultiAsset, ()> {
        arbitrary()
    }
}

impl TryFrom<Vec<MultiAsset0>> for MultiAssetFilter {
    type Error = ();

    /// The filter that a list stands for: the wildcard that a list of one
    /// wildcard holds, or else the collection of its assets.
    fn try_from(old: Vec<MultiAsset0>) -> (r: Result<MultiAssetFilter, ()>)
        ensures
            match filter_from_v0(views(old@)) {
                Some(filter) => r matches Ok(found) && found@ == filter,
                None => r is Err,
            },
    {
        let mut old = old;
        if old.len() == 1 && old[0].is_wildcard() {
            match WildMultiAsset::try_from(old.remove(0)) {
                Ok(wild) => Ok(MultiAssetFilter::Wild(wild)),
                Err(()) => Err(()),
            }
        } else {
            match MultiAssets::try_from(old) {
                Ok(assets) => Ok(MultiAssetFilter::Definite(assets)),
                Err(()) => Err(()),
            }
        }
    }
}

/// The conversion gives a value made anew, which no `spec` function can
/// name: it is specified by the `ensures` of its own, over views.
impl vstd::std_specs::convert::TryFromSpecImpl<Vec<MultiAsset0>> for MultiAssetFilter {
    open spec fn obeys_try_from_spec() -> bool {
        false
    }

    open spec fn try_from_spec(old: Vec<MultiAsset0>) -> Result<MultiAssetFilter, ()> {
        arbitrary()
    }
}

} // verus!
