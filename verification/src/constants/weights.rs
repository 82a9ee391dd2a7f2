//! The weights that the fee is measured by.

use vstd::prelude::*;

verus! {

/// The weight of a nanosecond of execution.
pub const WEIGHT_PER_NANOS: u64 = 1_000;

/// The base weight of an extrinsic, the smallest non-zero weight:
/// `125_000` nanoseconds of execution.
pub const EXTRINSIC_BASE_WEIGHT: u64 = 125_000 * WEIGHT_PER_NANOS;

} // verus!
