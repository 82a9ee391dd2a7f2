//! The second generation of the message format.

pub mod asset_order;
pub mod from_parts;
pub mod from_v0;
pub mod junction;
pub mod message;
pub mod multiasset;
pub mod multilocation;
pub mod normal;

pub use crate::v0::junction::{BodyId, BodyPart, NetworkId};
pub use crate::v0::message::OriginKind;
pub use junction::Junction;
pub use message::{Order, Response, Xcm};
pub use multiasset::{
    AssetId, AssetInstance, Fungibility, MultiAsset, MultiAssetFilter, MultiAssets,
    WildFungibility, WildMultiAsset,
};
pub use multilocation::MultiLocation;
