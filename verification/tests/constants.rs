use frame_support::weights::{
    Weight, WeightToFee as WeightToFeeT, WeightToFeeCoefficient, WeightToFeeCoefficients,
    WeightToFeePolynomial,
};
use sp_arithmetic::Perbill;
use xcm::constants::currency::{deposit, CENTS, DOLLARS, EXISTENTIAL_DEPOSIT, MILLICENTS, UNITS};
use xcm::constants::fee::{WeightToFee, BILLION, TARGET_BLOCK_FULLNESS};
use xcm::constants::time::{
    DAYS, EPOCH_DURATION_IN_SLOTS, HOURS, MILLISECS_PER_BLOCK, MINUTES, SLOT_DURATION, WEEKS,
};
use xcm::constants::weights::EXTRINSIC_BASE_WEIGHT;

/// Two seconds of execution.
const MAXIMUM_BLOCK_WEIGHT: u64 = 2_000_000_000_000;

/// The fee polynomial of the library, handed to the evaluation of the
/// runtime framework.
struct Fee;

impl WeightToFeePolynomial for Fee {
    type Balance = u128;

    fn polynomial() -> WeightToFeeCoefficients<u128> {
        let mut terms = WeightToFeeCoefficients::new();
        for term in WeightToFee::polynomial() {
            terms.push(WeightToFeeCoefficient {
                coeff_integer: term.coeff_integer,
                coeff_frac: Perbill::from_parts(term.coeff_frac),
                negative: term.negative,
                degree: term.degree,
            });
        }
        terms
    }
}

#[test]
// This function tests that the fee for `MAXIMUM_BLOCK_WEIGHT` of weight is correct
fn full_block_fee_is_correct() {
    // A full block should cost 16 DOLLARS
    println!("Base: {}", EXTRINSIC_BASE_WEIGHT);
    let x = Fee::weight_to_fee(&Weight::from_parts(MAXIMUM_BLOCK_WEIGHT, 0));
    let y = 16 * DOLLARS;
    assert!(x.max(y) - x.min(y) < MILLICENTS);
}

#[test]
// This function tests that the fee for `ExtrinsicBaseWeight` of weight is correct
fn extrinsic_base_fee_is_correct() {
    // `ExtrinsicBaseWeight` should cost 1/10 of a CENT
    println!("Base: {}", EXTRINSIC_BASE_WEIGHT);
    let x = Fee::weight_to_fee(&Weight::from_parts(EXTRINSIC_BASE_WEIGHT, 0));
    let y = CENTS / 10;
    assert!(x.max(y) - x.min(y) < MILLICENTS);
}

#[test]
fn polynomial_has_one_exact_term() {
    let terms = WeightToFee::polynomial();
    assert_eq!(terms.len(), 1);
    assert_eq!(terms[0].degree, 1);
    assert!(!terms[0].negative);
    assert_eq!(terms[0].coeff_integer, 0);
    // a cent over ten base weights: 100_000_000 / 1_250_000_000 = 0.08
    assert_eq!(terms[0].coeff_frac, 80_000_000);
    assert!(terms[0].coeff_frac < BILLION);
}

#[test]
fn currency_units_are_exact() {
    assert_eq!(UNITS, 10_000_000_000);
    assert_eq!(DOLLARS, 10_000_000_000);
    assert_eq!(CENTS, 100_000_000);
    assert_eq!(MILLICENTS, 100_000);
    assert_eq!(EXISTENTIAL_DEPOSIT, 10_000_000_000);
    assert_eq!(xcm::constants::DOLLARS, DOLLARS);
}

#[test]
fn deposit_is_exact() {
    assert_eq!(deposit(0, 0), 0);
    assert_eq!(deposit(1, 0), 200_000_000_000);
    assert_eq!(deposit(0, 1), 10_000_000);
    assert_eq!(deposit(3, 7), 600_070_000_000);
    assert_eq!(
        deposit(u32::MAX, u32::MAX),
        4_294_967_295u128 * 200_000_000_000 + 4_294_967_295u128 * 10_000_000
    );
}

#[test]
fn time_spans_are_exact() {
    assert_eq!(MILLISECS_PER_BLOCK, 6000);
    assert_eq!(SLOT_DURATION, 6000);
    assert_eq!(MINUTES, 10);
    assert_eq!(HOURS, 600);
    assert_eq!(DAYS, 14_400);
    assert_eq!(WEEKS, 100_800);
    assert_eq!(EPOCH_DURATION_IN_SLOTS, 2_400);
    assert_eq!(TARGET_BLOCK_FULLNESS, Perbill::from_percent(25).deconstruct());
}
