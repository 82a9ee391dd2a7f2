//! Time: the length of a block, and the spans counted in blocks.

use vstd::prelude::*;

verus! {

/// Blocks are numbered from the first on.
pub type BlockNumber = u32;

/// A moment or a span of time, in milliseconds.
pub type Moment = u64;

/// A block takes six seconds.
pub const MILLISECS_PER_BLOCK: Moment = 6000;

/// A slot is as long as a block.
pub const SLOT_DURATION: Moment = MILLISECS_PER_BLOCK;

/// The blocks of a minute.
pub const MINUTES: BlockNumber = 10;

/// The blocks of an hour.
pub const HOURS: BlockNumber = MINUTES * 60;

/// The blocks of a day.
pub const DAYS: BlockNumber = HOURS * 24;

/// The blocks of a week.
pub const WEEKS: BlockNumber = DAYS * 7;

/// An epoch lasts four hours.
pub const EPOCH_DURATION_IN_SLOTS: BlockNumber = 4 * HOURS;

/// 1 in 4 blocks (on average, not counting collisions) will be primary
/// babe blocks.
pub const PRIMARY_PROBABILITY: (u64, u64) = (1, 4);

/// The blocks of a minute are those that fit into sixty seconds.
pub proof fn lemma_minutes()
    ensures
        MINUTES * MILLISECS_PER_BLOCK == 60_000,
        HOURS == 600,
        DAYS == 14_400,
        WEEKS == 100_800,
        EPOCH_DURATION_IN_SLOTS == 2_400,
{
}

} // verus!
