//! Behavior of the saturating fixed-point primitives.

use circuit_sim::fixed::{fx_add, fx_div, fx_mul, fx_neg, fx_sub, SCALE};

#[test]
fn scale_is_one_million() {
    assert_eq!(SCALE, 1_000_000);
}

#[test]
fn products_and_quotients_are_exact_when_representable() {
    // 3.5 * 2.0 == 7.0 and 5.0 / 0.16 == 31.25, with no residue to drop.
    assert_eq!(fx_mul(3_500_000, 2_000_000), 7_000_000);
    assert_eq!(fx_div(5_000_000, 160_000), 31_250_000);
}

#[test]
fn truncation_is_toward_zero() {
    // 5e-6 * 0.3 is 1.5e-6: the residue is dropped toward zero for either
    // sign, and 1e-6 / 3.0 is below one unit entirely.
    assert_eq!(fx_mul(5, 300_000), 1);
    assert_eq!(fx_mul(-5, 300_000), -1);
    assert_eq!(fx_div(1_000_000, 3_000_000), 333_333);
    assert_eq!(fx_div(-1_000_000, 3_000_000), -333_333);
    assert_eq!(fx_div(1, 3_000_000), 0);
}

#[test]
fn arithmetic_saturates_at_the_rails() {
    assert_eq!(fx_add(i64::MAX, 1), i64::MAX);
    assert_eq!(fx_add(i64::MIN, -1), i64::MIN);
    assert_eq!(fx_sub(i64::MIN, 1), i64::MIN);
    assert_eq!(fx_sub(i64::MAX, -1), i64::MAX);
    assert_eq!(fx_mul(i64::MAX, 2_000_000), i64::MAX);
    assert_eq!(fx_mul(i64::MIN, 2_000_000), i64::MIN);
    assert_eq!(fx_div(i64::MAX, 1), i64::MAX);
    assert_eq!(fx_neg(i64::MIN), i64::MAX);
    assert_eq!(fx_neg(i64::MAX), i64::MIN + 1);
}

#[test]
fn negation_and_sums_are_exact_in_range() {
    assert_eq!(fx_add(2_500_000, -1_000_000), 1_500_000);
    assert_eq!(fx_sub(2_500_000, 4_000_000), -1_500_000);
    assert_eq!(fx_neg(31_250_000), -31_250_000);
}
