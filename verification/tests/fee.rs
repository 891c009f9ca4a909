use downward_mailbox::fee::{FeeFactor, FeePolicy, DIV};
use sp_runtime::{FixedPointNumber, FixedU128};

fn policy() -> FeePolicy {
    FeePolicy::new(
        FeeFactor::from_inner(DIV),
        FeeFactor::from_inner(DIV + DIV / 20),
        FeeFactor::from_inner(DIV / 1000),
    )
    .unwrap()
}

#[test]
fn one_is_ten_to_the_eighteenth() {
    assert_eq!(DIV, 1_000_000_000_000_000_000);
    assert_eq!(DIV, FixedU128::DIV);
}

#[test]
fn mul_rounds_down() {
    let a = FeeFactor::from_inner(3);
    let half = FeeFactor::from_inner(DIV / 2);
    assert_eq!(a.saturating_mul(half), FeeFactor::from_inner(1));
    let two = FeeFactor::from_inner(2 * DIV);
    assert_eq!(FeeFactor::from_inner(7).saturating_mul(two), FeeFactor::from_inner(14));
    assert_eq!(FeeFactor::from_inner(0).saturating_mul(two), FeeFactor::from_inner(0));
}

#[test]
fn mul_saturates() {
    let max = FeeFactor::from_inner(u128::MAX);
    let two = FeeFactor::from_inner(2 * DIV);
    assert_eq!(max.saturating_mul(two), max);
    assert_eq!(max.saturating_mul(max), max);
    assert_eq!(max.saturating_mul(FeeFactor::from_inner(DIV)), max);
}

#[test]
fn div_rounds_down() {
    let two = FeeFactor::from_inner(2 * DIV);
    let three = FeeFactor::from_inner(3 * DIV);
    assert_eq!(two.checked_div(three), Some(FeeFactor::from_inner(666_666_666_666_666_666)));
    assert_eq!(FeeFactor::from_inner(7).checked_div(two), Some(FeeFactor::from_inner(3)));
    assert_eq!(three.checked_div(FeeFactor::from_inner(DIV)), Some(three));
}

#[test]
fn div_refuses_zero_and_overflow() {
    let one = FeeFactor::from_inner(DIV);
    assert_eq!(one.checked_div(FeeFactor::from_inner(0)), None);
    let max = FeeFactor::from_inner(u128::MAX);
    assert_eq!(max.checked_div(FeeFactor::from_inner(DIV / 2)), None);
    assert_eq!(max.checked_div(one), Some(max));
}

#[test]
fn policy_needs_a_base_of_at_least_one() {
    let one = FeeFactor::from_inner(DIV);
    assert!(FeePolicy::new(one, FeeFactor::from_inner(DIV - 1), one).is_none());
    assert!(FeePolicy::new(one, FeeFactor::from_inner(0), one).is_none());
    let policy = FeePolicy::new(FeeFactor::from_inner(5), one, FeeFactor::from_inner(9)).unwrap();
    assert_eq!(policy.min_fee_factor(), FeeFactor::from_inner(5));
    assert_eq!(policy.exponential_fee_base(), one);
    assert_eq!(policy.message_size_fee_base(), FeeFactor::from_inner(9));
}

#[test]
fn increase_follows_the_formula() {
    let one = FeeFactor::from_inner(DIV);
    // 1 * (1.05 + 0.001 * 0)
    assert_eq!(policy().increase(one, 0), FeeFactor::from_inner(1_050_000_000_000_000_000));
    // a started kilobyte counts whole
    assert_eq!(policy().increase(one, 1), FeeFactor::from_inner(1_051_000_000_000_000_000));
    assert_eq!(policy().increase(one, 1024), FeeFactor::from_inner(1_051_000_000_000_000_000));
    assert_eq!(policy().increase(one, 1025), FeeFactor::from_inner(1_052_000_000_000_000_000));
    // 2.5 * (1.05 + 0.001 * 3)
    assert_eq!(
        policy().increase(FeeFactor::from_inner(2 * DIV + DIV / 2), 3 * 1024),
        FeeFactor::from_inner(2_632_500_000_000_000_000)
    );
}

#[test]
fn increase_matches_fixed_u128() {
    let factor = FixedU128::from_rational(1234, 1000);
    let base = FixedU128::from_rational(105, 100);
    let size_base = FixedU128::from_rational(1, 1000);
    let expected = sp_runtime::traits::Saturating::saturating_mul(
        factor,
        sp_runtime::traits::Saturating::saturating_add(
            base,
            sp_runtime::traits::Saturating::saturating_mul(FixedU128::from(7u128), size_base),
        ),
    );
    assert_eq!(
        policy().increase(FeeFactor::from_inner(factor.into_inner()), 7 * 1024).inner,
        expected.into_inner()
    );
}

#[test]
fn increase_saturates() {
    let max = FeeFactor::from_inner(u128::MAX);
    assert_eq!(policy().increase(max, 10), max);
    // the kilobytes saturate as a fixed-point number, a thousandth of them does not
    assert_eq!(
        policy().increase(FeeFactor::from_inner(DIV), u128::MAX),
        FeeFactor::from_inner(u128::MAX / 1000 + DIV + DIV / 20)
    );
    assert_eq!(policy().increase(FeeFactor::from_inner(DIV * DIV), u128::MAX), max);
    assert_eq!(policy().increase(FeeFactor::from_inner(0), 10), FeeFactor::from_inner(0));
}

#[test]
fn small_factor_may_not_rise() {
    // 1e-18 * 1.051 rounds down to 1e-18
    assert_eq!(policy().increase(FeeFactor::from_inner(1), 10), FeeFactor::from_inner(1));
    assert_eq!(policy().increase(FeeFactor::from_inner(19), 0), FeeFactor::from_inner(19));
    assert_eq!(policy().increase(FeeFactor::from_inner(20), 0), FeeFactor::from_inner(21));
}

#[test]
fn decrease_divides_and_stops_at_the_floor() {
    // 2.1 / 1.05
    assert_eq!(
        policy().decrease(FeeFactor::from_inner(2_100_000_000_000_000_000)),
        FeeFactor::from_inner(2 * DIV)
    );
    // 1.04 / 1.05 is below the floor of 1
    assert_eq!(
        policy().decrease(FeeFactor::from_inner(1_040_000_000_000_000_000)),
        FeeFactor::from_inner(DIV)
    );
    assert_eq!(policy().decrease(FeeFactor::from_inner(DIV)), FeeFactor::from_inner(DIV));
    assert_eq!(policy().decrease(FeeFactor::from_inner(0)), FeeFactor::from_inner(DIV));
}

#[test]
fn decrease_matches_fixed_u128() {
    let factor = FixedU128::from_rational(98765, 1000);
    let base = FixedU128::from_rational(105, 100);
    let expected = FixedU128::from_u32(1).max(factor / base);
    assert_eq!(
        policy().decrease(FeeFactor::from_inner(factor.into_inner())).inner,
        expected.into_inner()
    );
}

#[test]
fn base_of_one_changes_nothing() {
    let one = FeeFactor::from_inner(DIV);
    let flat = FeePolicy::new(FeeFactor::from_inner(0), one, FeeFactor::from_inner(0)).unwrap();
    let factor = FeeFactor::from_inner(12345);
    assert_eq!(flat.increase(factor, 4096), factor);
    assert_eq!(flat.decrease(factor), factor);
}
