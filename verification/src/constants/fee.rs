//! The fee for weight: a polynomial in the weight.

use crate::constants::currency::{Balance, CENTS};
use crate::constants::weights::EXTRINSIC_BASE_WEIGHT;
use sp_arithmetic::{PerThing, Perbill};
use vstd::prelude::*;

verus! {

/// The parts of a billion that stand for a whole.
pub const BILLION: u32 = 1_000_000_000;

/// The fullness of a block at which fees neither rise nor fall: a
/// quarter, in parts of a billion.
pub const TARGET_BLOCK_FULLNESS: u32 = 250_000_000;

/// One term of the polynomial that turns weight into a fee.
#[derive(Clone, Copy, Debug, PartialEq, Eq, Structural)]
pub struct WeightToFeeCoefficient {
    /// The integral part of the coefficient.
    pub coeff_integer: Balance,
    /// The fractional part of the coefficient, in parts of a billion.
    pub coeff_frac: u32,
    /// True iff the coefficient should be interpreted as negative.
    pub negative: bool,
    /// Degree/exponent of the term.
    pub degree: u8,
}

/// The fraction `p/q` in parts of a billion, rounded down; a whole where
/// `q` is zero or `p` exceeds `q`.
pub open spec fn perbill_parts(p: u128, q: u128) -> int {
    if q == 0 || p > q {
        BILLION as int
    } else {
        (p * BILLION) / (q as int)
    }
}

/// `Perbill::from_rational` of `sp_arithmetic`, and the parts of the
/// result. Believed of it, as its documentation says: the fraction `p/q`
/// is approximated in parts of a billion, always rounding down, and
/// nothing overflows; for a zero `q`, and for a `p` above `q`, the result
/// is a whole.
#[verifier::external_body]
fn perbill_from_rational(p: u128, q: u128) -> (parts: u32)
    ensures
        parts == perbill_parts(p, q),
{
    Perbill::from_rational(p, q).deconstruct()
}

/// Handles converting a weight scalar to a fee value, based on the scale
/// and granularity of the node's balance type.
///
/// The base weight of an extrinsic, the smallest non-zero weight, is
/// mapped to a tenth of a cent.
#[derive(Clone, Copy, Debug)]
pub struct WeightToFee;

impl WeightToFee {
    /// The one term that maps the base weight of an extrinsic to a tenth of
    /// a cent: of degree one and positive, with the coefficient `p/q` for
    /// `p` a cent and `q` ten times the base weight, split into its
    /// integral part and the rest in parts of a billion, rounded down.
    pub open spec fn term() -> WeightToFeeCoefficient {
        let q: u128 = (10 * EXTRINSIC_BASE_WEIGHT) as u128;
        WeightToFeeCoefficient {
            degree: 1,
            negative: false,
            coeff_frac: perbill_parts((CENTS % q) as u128, q) as u32,
            coeff_integer: (CENTS / q) as u128,
        }
    }

    /// The polynomial that turns weight into a fee: its one term gives
    /// eight hundredths of the smallest unit of balance for a unit of
    /// weight.
    pub fn polynomial() -> (r: Vec<WeightToFeeCoefficient>)
        ensures
            r@ == seq![Self::term()],
            r@[0] == (WeightToFeeCoefficient {
                degree: 1,
                negative: false,
                coeff_frac: 80_000_000,
                coeff_integer: 0,
            }),
    {
        // in Polkadot, extrinsic base weight (smallest non-zero weight) is mapped to 1/10 CENT:
        let p: Balance = CENTS;
        let q: Balance = 10 * (EXTRINSIC_BASE_WEIGHT as Balance);
        let term = WeightToFeeCoefficient {
            degree: 1,
            negative: false,
            coeff_frac: perbill_from_rational(p % q, q),
            coeff_integer: p / q,
        };
        assert(p == 100_000_000 && q == 1_250_000_000);
        assert(p % q == 100_000_000 && p / q == 0);
        assert(100_000_000u128 * BILLION == 100_000_000_000_000_000);
        assert(100_000_000_000_000_000int / 1_250_000_000int == 80_000_000);
        let mut r: Vec<WeightToFeeCoefficient> = Vec::new();
        r.push(term);
        assert(r@ =~= seq![Self::term()]);
        r
    }
}

} // verus!
