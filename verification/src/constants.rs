//! Money and time on the relay chain, and the fee for weight.

pub mod currency;
pub mod fee;
pub mod time;
pub mod weights;

pub use currency::DOLLARS;
