//! The latest generation of the format.

pub use crate::v1::{
    AssetId, AssetInstance, BodyId, BodyPart, Fungibility, Junction, MultiAsset,
    MultiAssetFilter, MultiAssets, MultiLocation, NetworkId, Order, OriginKind, Response,
    WildFungibility, WildMultiAsset, Xcm,
};
