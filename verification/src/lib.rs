//! Data model and algebra of a versioned cross-consensus message format:
//! locations, assets, canonical asset collections, wildcard filters and
//! the conversions between the two generations of the format.

pub mod bytes;
pub mod constants;
pub mod double_encoded;
pub mod drop_assets;
pub mod latest;
pub mod rel;
pub mod seqs;
pub mod v0;
pub mod v1;

pub use double_encoded::DoubleEncoded;
