//! The reward calculator on concrete values: the exact formula, its zero
//! cases, its monotonicity, and its overflow behaviour.

use staking::reward::calculate_reward_apr;

#[test]
fn reward_matches_floor_formula() {
    // principal 100000, 30 days in seconds, 10% APR in basis points
    let expected = 100000u128 * 1000 / 10_000 * 2_592_000 / 31_536_000;
    let exact = 100000u128
        .checked_mul(1000)
        .unwrap()
        .checked_mul(2_592_000)
        .unwrap()
        .checked_div(10_000)
        .unwrap()
        .checked_div(31_536_000)
        .unwrap();
    assert_eq!(exact, 821u128);
    assert_eq!(expected, 821u128);
    assert_eq!(calculate_reward_apr(100000, 2_592_000, 1000), Some(821u128));
}

#[test]
fn reward_one_full_year_at_full_rate() {
    // 10_000 bps over exactly one year pays the principal itself
    assert_eq!(calculate_reward_apr(123456, 31_536_000, 10_000), Some(123456u128));
}

#[test]
fn reward_rounds_down() {
    // 1 token for 1 second at 1 bps accrues far less than one unit
    assert_eq!(calculate_reward_apr(1, 1, 1), Some(0u128));
}

#[test]
fn reward_zero_when_any_factor_is_zero() {
    assert_eq!(calculate_reward_apr(0, 2_592_000, 1000), Some(0u128));
    assert_eq!(calculate_reward_apr(100000, 0, 1000), Some(0u128));
    assert_eq!(calculate_reward_apr(100000, 2_592_000, 0), Some(0u128));
}

#[test]
fn reward_nondecreasing_in_elapsed_and_rate() {
    let base = calculate_reward_apr(100000, 2_592_000, 1000).unwrap();
    let longer = calculate_reward_apr(100000, 5_184_000, 1000).unwrap();
    let richer = calculate_reward_apr(100000, 2_592_000, 2000).unwrap();
    assert!(base <= longer);
    assert!(base <= richer);
    assert_eq!(longer, 1643u128);
    assert_eq!(richer, 1643u128);
}

#[test]
fn reward_overflow_yields_none() {
    assert_eq!(calculate_reward_apr(u128::MAX, 2, 2), None);
    assert_eq!(calculate_reward_apr(u128::MAX / 2, 3, 3), None);
}
