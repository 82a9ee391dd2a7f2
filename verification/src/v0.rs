//! The first generation of the message format.

pub mod downgrade;
pub mod junction;
pub mod message;
pub mod multi_asset;
pub mod multi_location;

pub use crate::v1::multiasset::AssetInstance;
pub use junction::{BodyId, BodyPart, Junction, NetworkId};
pub use message::{Order, OriginKind, Response, Xcm};
pub use multi_asset::MultiAsset;
pub use multi_location::MultiLocation;
