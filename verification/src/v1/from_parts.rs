//! Assets, identifiers and filters out of their parts.

use crate::seqs::views;
use crate::v1::multiasset::{
    AssetId, AssetInstance, Fungibility, MultiAsset, MultiAssetFilter, MultiAssetFilterView,
    MultiAssets, WildFungibility, WildMultiAsset,
};
use crate::v1::multilocation::MultiLocation;
use crate::v1::normal::normalize;
use vstd::prelude::*;

verus! {

impl From<()> for AssetInstance {
    /// The instance of a class that has only one.
    fn from(x: ()) -> (r: AssetInstance) {
        AssetInstance::Undefined
    }
}

/// The conversion as a `spec` function: the fields are moved as they are.
impl vstd::std_specs::convert::FromSpecImpl<()> for AssetInstance {
    open spec fn obeys_from_spec() -> bool {
        true
    }

    open spec fn from_spec(x: ()) -> AssetInstance {
        AssetInstance::Undefined
    }
}

impl From<[u8; 4]> for AssetInstance {
    /// The instance named by 4 bytes.
    fn from(x: [u8; 4]) -> (r: AssetInstance) {
        AssetInstance::Array4(x)
    }
}

/// The conversion as a `spec` function: the fields are moved as they are.
impl vstd::std_specs::convert::FromSpecImpl<[u8; 4]> for AssetInstance {
    open spec fn obeys_from_spec() -> bool {
        true
    }

    open spec fn from_spec(x: [u8; 4]) -> AssetInstance {
        AssetInstance::Array4(x)
    }
}

impl From<[u8; 8]> for AssetInstance {
    /// The instance named by 8 bytes.
    fn from(x: [u8; 8]) -> (r: AssetInstance) {
        AssetInstance::Array8(x)
    }
}

/// The conversion as a `spec` function: the fields are moved as they are.
impl vstd::std_specs::convert::FromSpecImpl<[u8; 8]> for AssetInstance {
    open spec fn obeys_from_spec() -> bool {
        true
    }

    open spec fn from_spec(x: [u8; 8]) -> AssetInstance {
        AssetInstance::Array8(x)
    }
}

impl From<[u8; 16]> for AssetInstance {
    /// The instance named by 16 bytes.
    fn from(x: [u8; 16]) -> (r: AssetInstance) {
        AssetInstance::Array16(x)
    }
}

/// The conversion as a `spec` function: the fields are moved as they are.
impl vstd::std_specs::convert::FromSpecImpl<[u8; 16]> for AssetInstance {
    open spec fn obeys_from_spec() -> bool {
        true
    }

    open spec fn from_spec(x: [u8; 16]) -> AssetInstance {
        AssetInstance::Array16(x)
    }
}

impl From<[u8; 32]> for AssetInstance {
    /// The instance named by 32 bytes.
    fn from(x: [u8; 32]) -> (r: AssetInstance) {
        AssetInstance::Array32(x)
    }
}

/// The conversion as a `spec` function: the fields are moved as they are.
impl vstd::std_specs::convert::FromSpecImpl<[u8; 32]> for AssetInstance {
    open spec fn obeys_from_spec() -> bool {
        true
    }

    open spec fn from_spec(x: [u8; 32]) -> AssetInstance {
        AssetInstance::Array32(x)
    }
}

impl From<Vec<u8>> for AssetInstance {
    /// The instance named by an arbitrary piece of data.
    fn from(x: Vec<u8>) -> (r: AssetInstance) {
        AssetInstance::Blob(x)
    }
}

/// The conversion as a `spec` function: the fields are moved as they are.
impl vstd::std_specs::convert::FromSpecImpl<Vec<u8>> for AssetInstance {
    open spec fn obeys_from_spec() -> bool {
        true
    }

    open spec fn from_spec(x: Vec<u8>) -> AssetInstance {
        AssetInstance::Blob(x)
    }
}

impl From<MultiLocation> for AssetId {
    /// The identifier of the asset that lives at a location.
    fn from(x: MultiLocation) -> (r: AssetId) {
        AssetId::Concrete(x)
    }
}

/// The conversion as a `spec` function: the fields are moved as they are.
impl vstd::std_specs::convert::FromSpecImpl<MultiLocation> for AssetId {
    open spec fn obeys_from_spec() -> bool {
        true
    }

    open spec fn from_spec(x: MultiLocation) -> AssetId {
        AssetId::Concrete(x)
    }
}

impl From<Vec<u8>> for AssetId {
    /// The identifier of the asset with a global name.
    fn from(x: Vec<u8>) -> (r: AssetId) {
        AssetId::Abstract(x)
    }
}

/// The conversion as a `spec` function: the fields are moved as they are.
impl vstd::std_specs::convert::FromSpecImpl<Vec<u8>> for AssetId {
    open spec fn obeys_from_spec() -> bool {
        true
    }

    open spec fn from_spec(x: Vec<u8>) -> AssetId {
        AssetId::Abstract(x)
    }
}

impl From<u128> for Fungibility {
    /// An amount of a fungible. The amount `0` is taken as it is, and stands for no asset.
    fn from(amount: u128) -> (r: Fungibility) {
        Fungibility::Fungible(amount)
    }
}

/// The conversion as a `spec` function: the fields are moved as they are.
impl vstd::std_specs::convert::FromSpecImpl<u128> for Fungibility {
    open spec fn obeys_from_spec() -> bool {
        true
    }

    open spec fn from_spec(amount: u128) -> Fungibility {
        Fungibility::Fungible(amount)
    }
}

impl From<AssetInstance> for Fungibility {
    /// An instance of a non-fungible class.
    fn from(instance: AssetInstance) -> (r: Fungibility) {
        Fungibility::NonFungible(instance)
    }
}

/// The conversion as a `spec` function: the fields are moved as they are.
impl vstd::std_specs::convert::FromSpecImpl<AssetInstance> for Fungibility {
    open spec fn obeys_from_spec() -> bool {
        true
    }

    open spec fn from_spec(instance: AssetInstance) -> Fungibility {
        Fungibility::NonFungible(instance)
    }
}

impl From<(AssetId, Fungibility)> for MultiAsset {
    /// The asset with the given identifier and fungibility.
    fn from(pair: (AssetId, Fungibility)) -> (r: MultiAsset) {
        MultiAsset { fun: pair.1, id: pair.0 }
    }
}

/// The conversion as a `spec` function: the fields are moved as they are.
impl vstd::std_specs::convert::FromSpecImpl<(AssetId, Fungibility)> for MultiAsset {
    open spec fn obeys_from_spec() -> bool {
        true
    }

    open spec fn from_spec(pair: (AssetId, Fungibility)) -> MultiAsset {
        MultiAsset { fun: pair.1, id: pair.0 }
    }
}

impl From<(AssetId, WildFungibility)> for WildMultiAsset {
    /// The wildcard for all assets of the given identifier and class.
    fn from(pair: (AssetId, WildFungibility)) -> (r: WildMultiAsset) {
        WildMultiAsset::AllOf { fun: pair.1, id: pair.0 }
    }
}

/// The conversion as a `spec` function: the fields are moved as they are.
impl vstd::std_specs::convert::FromSpecImpl<(AssetId, WildFungibility)> for WildMultiAsset {
    open spec fn obeys_from_spec() -> bool {
        true
    }

    open spec fn from_spec(pair: (AssetId, WildFungibility)) -> WildMultiAsset {
        WildMultiAsset::AllOf { fun: pair.1, id: pair.0 }
    }
}

impl From<WildMultiAsset> for MultiAssetFilter {
    /// The filter of a wildcard.
    fn from(x: WildMultiAsset) -> (r: MultiAssetFilter) {
        MultiAssetFilter::Wild(x)
    }
}

/// The conversion as a `spec` function: the fields are moved as they are.
impl vstd::std_specs::convert::FromSpecImpl<WildMultiAsset> for MultiAssetFilter {
    open spec fn obeys_from_spec() -> bool {
        true
    }

    open spec fn from_spec(x: WildMultiAsset) -> MultiAssetFilter {
        MultiAssetFilter::Wild(x)
    }
}

impl From<MultiAssets> for MultiAssetFilter {
    /// The filter of a collection.
    fn from(x: MultiAssets) -> (r: MultiAssetFilter) {
        MultiAssetFilter::Definite(x)
    }
}

/// The conversion as a `spec` function: the fields are moved as they are.
impl vstd::std_specs::convert::FromSpecImpl<MultiAssets> for MultiAssetFilter {
    open spec fn obeys_from_spec() -> bool {
        true
    }

    open spec fn from_spec(x: MultiAssets) -> MultiAssetFilter {
        MultiAssetFilter::Definite(x)
    }
}

impl From<MultiAsset> for MultiAssetFilter {
    /// The filter of the one asset.
    fn from(x: MultiAsset) -> (r: MultiAssetFilter)
        ensures
            r@ == MultiAssetFilterView::Definite(seq![x@]),
    {
        MultiAssetFilter::Definite(MultiAssets::from(x))
    }
}

/// The conversion gives a value made anew, which no `spec` function can
/// name: it is specified by the `ensures` of its own, over views.
impl vstd::std_specs::convert::FromSpecImpl<MultiAsset> for MultiAssetFilter {
    open spec fn obeys_from_spec() -> bool {
        false
    }

    open spec fn from_spec(x: MultiAsset) -> MultiAssetFilter {
        arbitrary()
    }
}

impl From<Vec<MultiAsset>> for MultiAssetFilter {
    /// The filter of the given assets, brought into normal form.
    fn from(x: Vec<MultiAsset>) -> (r: MultiAssetFilter)
        ensures
            r@ == MultiAssetFilterView::Definite(normalize(views(x@))),
    {
        MultiAssetFilter::Definite(MultiAssets::from(x))
    }
}

/// The conversion gives a value made anew, which no `spec` function can
/// name: it is specified by the `ensures` of its own, over views.
impl vstd::std_specs::convert::FromSpecImpl<Vec<MultiAsset>> for MultiAssetFilter {
    open spec fn obeys_from_spec() -> bool {
        false
    }

    open spec fn from_spec(x: Vec<MultiAsset>) -> MultiAssetFilter {
        arbitrary()
    }
}

} // verus!
