//! The reward accrual calculator.
//!
//! A position of `principal` tokens that has been locked for
//! `elapsed` seconds at an annual rate of `rate` basis points earns
//! `principal * rate * elapsed / 10_000 / SECONDS_PER_YEAR`, rounded
//! down.  The products are taken in 128-bit arithmetic; inputs whose
//! product does not fit yield no result rather than a wrong one.

use vstd::prelude::*;
use vstd::arithmetic::div_mod::lemma_div_is_ordered;
use vstd::arithmetic::mul::lemma_mul_inequality;
use vstd::arithmetic::mul::lemma_mul_left_inequality;

verus! {

/// Seconds in a reward year: 365 days, no leap-year correction.
pub const SECONDS_PER_YEAR: u64 = 365 * 24 * 60 * 60;

/// Basis points in the whole: a rate of 10_000 bps is 100%.
pub const BPS_DENOMINATOR: u64 = 10_000;

/// The reward owed to `principal` tokens staked for `elapsed` seconds at
/// `rate` basis points per year, rounded down.
pub open spec fn reward_of(principal: int, elapsed: int, rate: int) -> int {
    principal * rate * elapsed / (BPS_DENOMINATOR as int) / (SECONDS_PER_YEAR as int)
}

/// Whether the products in the reward formula fit 128-bit arithmetic.
/// When any factor is zero no product is formed at all.
pub open spec fn reward_fits(principal: int, elapsed: int, rate: int) -> bool {
    principal == 0 || elapsed == 0 || rate == 0 || principal * rate * elapsed <= u128::MAX as int
}

/// The reward accrued by `stake_amount` over `staked_seconds` at
/// `annual_rate_bps`, or `None` when the products overflow 128-bit
/// arithmetic (the host treats that as a fatal arithmetic fault).
pub fn calculate_reward_apr(stake_amount: u128, staked_seconds: u64, annual_rate_bps: u64) -> (r:
    Option<u128>)
    ensures
        r is Some <==> reward_fits(stake_amount as int, staked_seconds as int, annual_rate_bps as int),
        r matches Some(v) ==> v as int == reward_of(
            stake_amount as int,
            staked_seconds as int,
            annual_rate_bps as int,
        ),
{
    if stake_amount == 0 || staked_seconds == 0 || annual_rate_bps == 0 {
        proof {
            lemma_reward_zero(stake_amount as int, staked_seconds as int, annual_rate_bps as int);
        }
        return Some(0);
    }
    let rate = annual_rate_bps as u128;
    let time = staked_seconds as u128;
    let step1 = match stake_amount.checked_mul(rate) {
        Some(x) => x,
        None => {
            proof {
                lemma_first_product_bound(stake_amount as int, staked_seconds as int, annual_rate_bps as int);
            }
            return None;
        },
    };
    let step2 = match step1.checked_mul(time) {
        Some(x) => x,
        None => {
            return None;
        },
    };
    let reward = step2 / (BPS_DENOMINATOR as u128) / (SECONDS_PER_YEAR as u128);
    Some(reward)
}

/// A reward is zero whenever the principal, the elapsed time or the rate
/// is zero.
pub proof fn lemma_reward_zero(principal: int, elapsed: int, rate: int)
    ensures
        principal == 0 || elapsed == 0 || rate == 0 ==> reward_of(principal, elapsed, rate) == 0,
{
    if principal == 0 || elapsed == 0 || rate == 0 {
        assert(principal * rate * elapsed == 0) by (nonlinear_arith)
            requires
                principal == 0 || elapsed == 0 || rate == 0,
        ;
    }
}

/// With all three factors positive, the first partial product is bounded
/// by the full product.
proof fn lemma_first_product_bound(principal: int, elapsed: int, rate: int)
    requires
        principal > 0,
        elapsed > 0,
        rate > 0,
    ensures
        principal * rate <= principal * rate * elapsed,
{
    assert(principal * rate > 0) by (nonlinear_arith)
        requires
            principal > 0,
            rate > 0,
    ;
    lemma_mul_left_inequality(principal * rate, 1, elapsed);
}

/// The reward is non-decreasing in the elapsed time.
pub proof fn lemma_reward_monotonic_in_elapsed(principal: int, elapsed1: int, elapsed2: int, rate: int)
    requires
        principal >= 0,
        rate >= 0,
        0 <= elapsed1 <= elapsed2,
    ensures
        reward_of(principal, elapsed1, rate) <= reward_of(principal, elapsed2, rate),
{
    assert(principal * rate >= 0) by (nonlinear_arith)
        requires
            principal >= 0,
            rate >= 0,
    ;
    lemma_mul_inequality(elapsed1, elapsed2, principal * rate);
    assert(elapsed1 * (principal * rate) == principal * rate * elapsed1) by (nonlinear_arith);
    assert(elapsed2 * (principal * rate) == principal * rate * elapsed2) by (nonlinear_arith);
    lemma_div_is_ordered(
        principal * rate * elapsed1,
        principal * rate * elapsed2,
        BPS_DENOMINATOR as int,
    );
    lemma_div_is_ordered(
        principal * rate * elapsed1 / (BPS_DENOMINATOR as int),
        principal * rate * elapsed2 / (BPS_DENOMINATOR as int),
        SECONDS_PER_YEAR as int,
    );
}

/// The reward is non-decreasing in the annual rate.
pub proof fn lemma_reward_monotonic_in_rate(principal: int, elapsed: int, rate1: int, rate2: int)
    requires
        principal >= 0,
        elapsed >= 0,
        0 <= rate1 <= rate2,
    ensures
        reward_of(principal, elapsed, rate1) <= reward_of(principal, elapsed, rate2),
{
    lemma_mul_inequality(rate1, rate2, principal);
    assert(rate1 * principal == principal * rate1) by (nonlinear_arith);
    assert(rate2 * principal == principal * rate2) by (nonlinear_arith);
    lemma_mul_inequality(principal * rate1, principal * rate2, elapsed);
    assert(principal * rate1 * elapsed <= principal * rate2 * elapsed);
    lemma_div_is_ordered(
        principal * rate1 * elapsed,
        principal * rate2 * elapsed,
        BPS_DENOMINATOR as int,
    );
    lemma_div_is_ordered(
        principal * rate1 * elapsed / (BPS_DENOMINATOR as int),
        principal * rate2 * elapsed / (BPS_DENOMINATOR as int),
        SECONDS_PER_YEAR as int,
    );
}

} // verus!
