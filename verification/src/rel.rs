//! The outcome of a three-way comparison, and how outcomes combine.

use vstd::prelude::*;

verus! {

/// How one value stands to another in a total order.
#[derive(Clone, Copy, Debug, PartialEq, Eq, Structural)]
pub enum Rel {
    Less,
    Equal,
    Greater,
}

impl Rel {
    /// The outcome seen from the other side.
    pub open spec fn flip(self) -> Rel {
        match self {
            Rel::Less => Rel::Greater,
            Rel::Equal => Rel::Equal,
            Rel::Greater => Rel::Less,
        }
    }

    /// Lexicographic combination: `self` decides unless it is `Equal`.
    pub open spec fn followed_by(self, next: Rel) -> Rel {
        match self {
            Rel::Equal => next,
            _ => self,
        }
    }

    /// `Less` or `Equal`.
    pub open spec fn at_most(self) -> bool {
        self != Rel::Greater
    }
}

/// The laws of a total order on one triple of values, given how the order
/// relates `a` to `b`, `b` to `a`, `b` to `c` and `a` to `c`: only equal
/// values compare `Equal`, swapping flips, and the order is transitive and
/// antisymmetric.
pub open spec fn order_laws<T>(a: T, b: T, c: T, ab: Rel, ba: Rel, bc: Rel, ac: Rel) -> bool {
    &&& (ab == Rel::Equal <==> a == b)
    &&& (bc == Rel::Equal <==> b == c)
    &&& (ac == Rel::Equal <==> a == c)
    &&& ba == ab.flip()
    &&& (ab.at_most() && bc.at_most() ==> ac.at_most())
    &&& (ab.at_most() && bc.at_most() && ac == Rel::Equal ==> a == b && b == c)
}

/// Three-way comparison of two integers.
pub open spec fn int_rel(a: int, b: int) -> Rel {
    if a < b {
        Rel::Less
    } else if a == b {
        Rel::Equal
    } else {
        Rel::Greater
    }
}

/// Compares two `u128` values.
pub fn compare_u128(a: u128, b: u128) -> (r: Rel)
    ensures
        r == int_rel(a as int, b as int),
{
    if a < b {
        Rel::Less
    } else if a == b {
        Rel::Equal
    } else {
        Rel::Greater
    }
}

/// Compares two `u64` values.
pub fn compare_u64(a: u64, b: u64) -> (r: Rel)
    ensures
        r == int_rel(a as int, b as int),
{
    compare_u128(a as u128, b as u128)
}

/// Compares two `u32` values.
pub fn compare_u32(a: u32, b: u32) -> (r: Rel)
    ensures
        r == int_rel(a as int, b as int),
{
    compare_u128(a as u128, b as u128)
}

/// Compares two `usize` values.
pub fn compare_usize(a: usize, b: usize) -> (r: Rel)
    ensures
        r == int_rel(a as int, b as int),
{
    if a < b {
        Rel::Less
    } else if a == b {
        Rel::Equal
    } else {
        Rel::Greater
    }
}

} // verus!
