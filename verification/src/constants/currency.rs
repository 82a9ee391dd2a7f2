//! Money: its units and the deposit for storage.

use vstd::prelude::*;

verus! {

/// Balances are counted in the smallest unit.
pub type Balance = u128;

/// One unit of the currency.
pub const UNITS: Balance = 10_000_000_000;

/// One dollar: one unit.
pub const DOLLARS: Balance = UNITS;

/// One cent: a hundredth of a dollar, `100_000_000`.
pub const CENTS: Balance = DOLLARS / 100;

/// A thousandth of a cent, `100_000`.
pub const MILLICENTS: Balance = CENTS / 1_000;

/// The minimum amount required to keep an account open.
pub const EXISTENTIAL_DEPOSIT: Balance = 100 * CENTS;

/// The deposit for `items` items that take `bytes` bytes of storage:
/// twenty dollars an item and a hundred millicents a byte.
pub open spec fn spec_deposit(items: u32, bytes: u32) -> int {
    items * 20 * DOLLARS + bytes * 100 * MILLICENTS
}

/// The deposit for `items` items that take `bytes` bytes of storage.
pub fn deposit(items: u32, bytes: u32) -> (r: Balance)
    ensures
        r == spec_deposit(items, bytes),
        r == items * 200_000_000_000 + bytes * 10_000_000,
{
    (items as Balance) * 20 * DOLLARS + (bytes as Balance) * 100 * MILLICENTS
}

} // verus!
