//! End-to-end staking scenarios: the staking engine wired to the token
//! ledger, with this test acting as the host that dispatches the
//! emitted settlement instructions.

use staking::cw20_contract as token;
use staking::cw20_state::TokenState;
use staking::staking_contract::{
    execute_change_config, execute_claim_rewards, execute_stake, execute_unstake, instantiate,
    query_config, query_reward, query_stake, query_total_staked,
};
use staking::staking_error::ContractError;
use staking::staking_state::StakingState;
use staking::token_msg::ExecuteMsg;

struct TestSetup {
    token: TokenState,
    staking: StakingState,
    staking_addr: String,
    token_addr: String,
    owner: String,
    user1: String,
    apr: u64,
    period: u64,
    now: u64,
    staking_is_minter: bool,
}

fn new_setup() -> TestSetup {
    let owner = "owner".to_string();
    let user1 = "user1".to_string();
    let apr = 1000;
    let period = 60 * 60 * 24 * 30;
    let token_addr = "contract0".to_string();
    let staking_addr = "contract1".to_string();

    let token = token::instantiate("Test Token".to_string(), "TST".to_string(), 18);
    let staking = instantiate(token_addr.clone(), apr, period);

    TestSetup {
        token,
        staking,
        staking_addr,
        token_addr,
        owner,
        user1,
        apr,
        period,
        now: 1_600_000_000,
        staking_is_minter: false,
    }
}

/// Play the host: run the emitted instructions against the token ledger
/// on behalf of the staking contract.
fn dispatch(setup: &mut TestSetup, messages: Vec<ExecuteMsg>) {
    for msg in messages {
        match msg {
            ExecuteMsg::TransferFrom { owner, recipient, amount } => {
                token::execute_tranfer_from(
                    &mut setup.token,
                    &setup.staking_addr,
                    &owner,
                    &recipient,
                    amount,
                )
                .unwrap();
            }
            ExecuteMsg::Transfer { recipient, amount } => {
                token::execute_tranfer(&mut setup.token, &setup.staking_addr, &recipient, amount)
                    .unwrap();
            }
            ExecuteMsg::Mint { recipient, amount } => {
                token::execute_mint(&mut setup.token, setup.staking_is_minter, &recipient, amount)
                    .unwrap();
            }
            _ => panic!("unexpected instruction"),
        }
    }
}

fn mint_tokens(setup: &mut TestSetup, recipient: &str, amount: u128) {
    token::execute_mint(&mut setup.token, true, &recipient.to_string(), amount).unwrap();
}

fn approve_tokens(setup: &mut TestSetup, owner: &str, spender: &String, amount: u128) {
    let spender = spender.clone();
    token::execute_approve(&mut setup.token, &owner.to_string(), &spender, amount).unwrap();
}

fn stake(setup: &mut TestSetup, user: &str, amount: u128) {
    let staking_addr = setup.staking_addr.clone();
    let now = setup.now;
    let resp =
        execute_stake(&mut setup.staking, &user.to_string(), &staking_addr, amount, now).unwrap();
    dispatch(setup, resp.messages);
}

fn unstake(setup: &mut TestSetup, user: &str, amount: u128) {
    let now = setup.now;
    let resp = execute_unstake(&mut setup.staking, &user.to_string(), amount, now).unwrap();
    dispatch(setup, resp.messages);
}

fn claim_rewards(setup: &mut TestSetup, user: &str) {
    let now = setup.now;
    let resp = execute_claim_rewards(&mut setup.staking, &user.to_string(), now).unwrap();
    dispatch(setup, resp.messages);
}

fn balance_of(setup: &TestSetup, address: &str) -> u128 {
    token::query_balance(&setup.token, &address.to_string()).balance
}

#[test]
fn test_proper_initialization() {
    let setup = new_setup();

    let config = query_config(&setup.staking);

    assert_eq!(config.apr, setup.apr);
    assert_eq!(config.lockup_period, setup.period);
    assert_eq!(config.token_address, setup.token_addr);

    let total_staked = query_total_staked(&setup.staking);

    assert_eq!(total_staked.total, 0u128);
}

#[test]
fn test_successful_stake() {
    let mut setup = new_setup();
    let staked_amount = 100000u128;
    let staking_addr = setup.staking_addr.clone();

    mint_tokens(&mut setup, "user1", staked_amount);
    approve_tokens(&mut setup, "user1", &staking_addr, staked_amount);
    stake(&mut setup, "user1", staked_amount);

    let staked_info = query_stake(&setup.staking, &setup.user1);
    let total_staked_after = query_total_staked(&setup.staking);
    let user1_balance_after = balance_of(&setup, "user1");
    let staking_balance_after = balance_of(&setup, &setup.staking_addr.clone());

    assert_eq!(staked_info.amount, staked_amount);
    assert_eq!(staked_amount, total_staked_after.total);
    assert_eq!(user1_balance_after, 0u128);
    assert_eq!(staking_balance_after, staked_amount);
}

#[test]
pub fn test_successful_unstake_after_lockup() {
    let mut setup = new_setup();
    let staked_amount = 100000u128;
    let staking_addr = setup.staking_addr.clone();

    mint_tokens(&mut setup, "user1", staked_amount);
    approve_tokens(&mut setup, "user1", &staking_addr, staked_amount);
    stake(&mut setup, "user1", staked_amount);
    setup.staking_is_minter = true;

    let config = query_config(&setup.staking);
    setup.now += config.lockup_period;

    unstake(&mut setup, "user1", staked_amount);

    let user_balance_after_unstake = balance_of(&setup, "user1");
    let staking_balance_after_unstake = balance_of(&setup, &setup.staking_addr.clone());
    let total_staked_after = query_total_staked(&setup.staking);

    const SECONDS_PER_YEAR: u64 = 365 * 24 * 60 * 60;

    let stake_amt = staked_amount;
    let rate = config.apr as u128;
    let time = config.lockup_period as u128;
    let expected_reward = stake_amt
        .checked_mul(rate)
        .unwrap()
        .checked_mul(time)
        .unwrap()
        .checked_div(10_000)
        .unwrap()
        .checked_div(SECONDS_PER_YEAR as u128)
        .unwrap();

    assert_eq!(user_balance_after_unstake, expected_reward + stake_amt);
    assert_eq!(staking_balance_after_unstake, 0u128);
    assert_eq!(total_staked_after.total, 0u128);
}

#[test]
pub fn test_successful_clain_rewards() {
    let mut setup = new_setup();
    let staked_amount = 100000u128;
    let staking_addr = setup.staking_addr.clone();

    mint_tokens(&mut setup, "user1", staked_amount);
    approve_tokens(&mut setup, "user1", &staking_addr, staked_amount);
    stake(&mut setup, "user1", staked_amount);
    setup.staking_is_minter = true;

    let config = query_config(&setup.staking);
    setup.now += config.lockup_period;
    claim_rewards(&mut setup, "user1");
    let time_after_claiming = setup.now;

    let total_staked_after = query_total_staked(&setup.staking);
    let user_balance_after_claim_rewards = balance_of(&setup, "user1");
    let staked_info = query_stake(&setup.staking, &setup.user1);

    const SECONDS_PER_YEAR: u64 = 365 * 24 * 60 * 60;
    let stake_amt = staked_amount;
    let rate = config.apr as u128;
    let time = config.lockup_period as u128;
    let expected_reward = stake_amt
        .checked_mul(rate)
        .unwrap()
        .checked_mul(time)
        .unwrap()
        .checked_div(10_000)
        .unwrap()
        .checked_div(SECONDS_PER_YEAR as u128)
        .unwrap();

    assert_eq!(total_staked_after.total, staked_amount);
    assert_eq!(user_balance_after_claim_rewards, expected_reward);
    assert_eq!(staked_info.amount, staked_amount);
    assert_eq!(staked_info.stake_time, time_after_claiming);
}

#[test]
pub fn test_successful_change_config() {
    let mut setup = new_setup();
    let new_apr = setup.apr * 2;
    let new_lockup_period = setup.period * 2;

    // the owner invokes the change, so the ownership module answers yes
    let _ = setup.owner;
    execute_change_config(&mut setup.staking, true, new_apr, new_lockup_period).unwrap();

    let config = query_config(&setup.staking);

    assert_eq!(config.apr, new_apr);
    assert_eq!(config.lockup_period, new_lockup_period);
}

#[test]
fn test_unstake_emits_mint_before_transfer() {
    let mut setup = new_setup();
    let staking_addr = setup.staking_addr.clone();

    mint_tokens(&mut setup, "user1", 100000u128);
    approve_tokens(&mut setup, "user1", &staking_addr, 100000u128);
    stake(&mut setup, "user1", 100000u128);
    setup.now += setup.period;

    let resp = execute_unstake(&mut setup.staking, &setup.user1.clone(), 100000u128, setup.now)
        .unwrap();
    assert_eq!(resp.reward, 821u128);
    assert_eq!(resp.messages.len(), 2);
    assert!(matches!(
        resp.messages[0],
        ExecuteMsg::Mint { amount: 821u128, .. }
    ));
    assert!(matches!(
        resp.messages[1],
        ExecuteMsg::Transfer { amount: 100000u128, .. }
    ));
}

#[test]
fn test_change_config_twice_reads_last() {
    let mut setup = new_setup();
    execute_change_config(&mut setup.staking, true, 2000, 100).unwrap();
    execute_change_config(&mut setup.staking, true, 900, 7).unwrap();

    let config = query_config(&setup.staking);
    assert_eq!(config.apr, 900);
    assert_eq!(config.lockup_period, 7);
    assert_eq!(config.token_address, setup.token_addr);
}

#[test]
fn test_unstake_before_lockup_fails() {
    let mut setup = new_setup();
    let staked_amount = 100000u128;
    let staking_addr = setup.staking_addr.clone();

    mint_tokens(&mut setup, "user1", staked_amount);
    approve_tokens(&mut setup, "user1", &staking_addr, staked_amount);
    stake(&mut setup, "user1", staked_amount);

    // one second short of the lockup
    setup.now += setup.period - 1;
    let err = execute_unstake(&mut setup.staking, &setup.user1.clone(), staked_amount, setup.now)
        .unwrap_err();
    assert_eq!(err, ContractError::LockupNotExpired {});

    // nothing moved
    let staked_info = query_stake(&setup.staking, &setup.user1);
    assert_eq!(staked_info.amount, staked_amount);
    assert_eq!(query_total_staked(&setup.staking).total, staked_amount);
    assert_eq!(balance_of(&setup, &setup.staking_addr.clone()), staked_amount);
}

#[test]
fn test_claim_then_immediate_reclaim_fails() {
    let mut setup = new_setup();
    let staked_amount = 100000u128;
    let staking_addr = setup.staking_addr.clone();

    mint_tokens(&mut setup, "user1", staked_amount);
    approve_tokens(&mut setup, "user1", &staking_addr, staked_amount);
    stake(&mut setup, "user1", staked_amount);
    setup.staking_is_minter = true;

    setup.now += setup.period;
    claim_rewards(&mut setup, "user1");
    let time_after_claiming = setup.now;

    // elapsed time is now zero, so the lockup gate rejects the re-claim
    let err = execute_claim_rewards(&mut setup.staking, &setup.user1.clone(), setup.now)
        .unwrap_err();
    assert_eq!(err, ContractError::LockupNotExpired {});

    // with the lockup lifted, the immediate re-claim is rejected because
    // the reward accrued since the reset is zero; the clock is not
    // touched by either failure
    execute_change_config(&mut setup.staking, true, setup.apr, 0).unwrap();
    let err = execute_claim_rewards(&mut setup.staking, &setup.user1.clone(), setup.now)
        .unwrap_err();
    assert_eq!(err, ContractError::ZeroReward {});

    let staked_info = query_stake(&setup.staking, &setup.user1);
    assert_eq!(staked_info.stake_time, time_after_claiming);
    assert_eq!(staked_info.amount, staked_amount);
}

#[test]
fn test_change_config_unauthorized() {
    let mut setup = new_setup();
    let old_config = query_config(&setup.staking);

    // a non-owner account invokes the change, so the ownership module
    // answers no
    let err =
        execute_change_config(&mut setup.staking, false, setup.apr * 2, setup.period * 2)
            .unwrap_err();
    assert_eq!(err, ContractError::Unauthorized {});

    let config = query_config(&setup.staking);
    assert_eq!(config.apr, old_config.apr);
    assert_eq!(config.lockup_period, old_config.lockup_period);
    assert_eq!(config.token_address, old_config.token_address);
}

#[test]
fn test_unstake_without_position_fails() {
    let mut setup = new_setup();
    let err = execute_unstake(&mut setup.staking, &"user1".to_string(), 1u128, setup.now)
        .unwrap_err();
    assert_eq!(err, ContractError::NoStake {});

    let err = execute_claim_rewards(&mut setup.staking, &"user1".to_string(), setup.now)
        .unwrap_err();
    assert_eq!(err, ContractError::NoStake {});
}

#[test]
fn test_unstake_more_than_staked_fails() {
    let mut setup = new_setup();
    let staked_amount = 100000u128;
    let staking_addr = setup.staking_addr.clone();

    mint_tokens(&mut setup, "user1", staked_amount);
    approve_tokens(&mut setup, "user1", &staking_addr, staked_amount);
    stake(&mut setup, "user1", staked_amount);
    setup.now += setup.period;

    let err = execute_unstake(
        &mut setup.staking,
        &setup.user1.clone(),
        staked_amount + 1,
        setup.now,
    )
    .unwrap_err();
    assert_eq!(err, ContractError::InsufficientStake {});
    assert_eq!(query_total_staked(&setup.staking).total, staked_amount);
}

#[test]
fn test_partial_unstake_keeps_remainder_and_resets_clock() {
    let mut setup = new_setup();
    let staked_amount = 100000u128;
    let staking_addr = setup.staking_addr.clone();

    mint_tokens(&mut setup, "user1", staked_amount);
    approve_tokens(&mut setup, "user1", &staking_addr, staked_amount);
    stake(&mut setup, "user1", staked_amount);
    setup.staking_is_minter = true;

    setup.now += setup.period;
    unstake(&mut setup, "user1", 40000u128);

    let staked_info = query_stake(&setup.staking, &setup.user1);
    assert_eq!(staked_info.amount, 60000u128);
    assert_eq!(staked_info.stake_time, setup.now);
    assert_eq!(query_total_staked(&setup.staking).total, 60000u128);
}

#[test]
fn test_topup_resets_clock_and_adds_principal() {
    let mut setup = new_setup();
    let staking_addr = setup.staking_addr.clone();

    mint_tokens(&mut setup, "user1", 150000u128);
    approve_tokens(&mut setup, "user1", &staking_addr, 150000u128);
    stake(&mut setup, "user1", 100000u128);
    let first_time = setup.now;

    setup.now += 1000;
    stake(&mut setup, "user1", 50000u128);

    let staked_info = query_stake(&setup.staking, &setup.user1);
    assert_eq!(staked_info.amount, 150000u128);
    // the clock restarts on top-up, forfeiting the accrued window
    assert_eq!(staked_info.stake_time, first_time + 1000);
    assert_eq!(query_total_staked(&setup.staking).total, 150000u128);
}

#[test]
fn test_zero_stake_creates_empty_position() {
    let mut setup = new_setup();
    let staking_addr = setup.staking_addr.clone();

    // a zero amount is not rejected: it creates a position with no
    // economic effect
    stake(&mut setup, "user1", 0u128);
    let _ = staking_addr;

    let staked_info = query_stake(&setup.staking, &setup.user1);
    assert_eq!(staked_info.amount, 0u128);
    assert_eq!(staked_info.stake_time, setup.now);
    assert_eq!(query_total_staked(&setup.staking).total, 0u128);
}

#[test]
fn test_total_staked_matches_sum_of_positions() {
    let mut setup = new_setup();
    let staking_addr = setup.staking_addr.clone();

    mint_tokens(&mut setup, "user1", 70000u128);
    mint_tokens(&mut setup, "user2", 30000u128);
    approve_tokens(&mut setup, "user1", &staking_addr, 70000u128);
    approve_tokens(&mut setup, "user2", &staking_addr, 30000u128);

    stake(&mut setup, "user1", 70000u128);
    stake(&mut setup, "user2", 30000u128);
    setup.staking_is_minter = true;
    setup.now += setup.period;
    unstake(&mut setup, "user1", 25000u128);

    let p1 = query_stake(&setup.staking, &"user1".to_string()).amount;
    let p2 = query_stake(&setup.staking, &"user2".to_string()).amount;
    assert_eq!(query_total_staked(&setup.staking).total, p1 + p2);
    assert_eq!(query_total_staked(&setup.staking).total, 75000u128);
}

#[test]
fn test_query_reward_tracks_elapsed_time() {
    let mut setup = new_setup();
    let staking_addr = setup.staking_addr.clone();

    mint_tokens(&mut setup, "user1", 100000u128);
    approve_tokens(&mut setup, "user1", &staking_addr, 100000u128);
    stake(&mut setup, "user1", 100000u128);

    // no position, no reward
    assert_eq!(query_reward(&setup.staking, &"user2".to_string(), setup.now).amount, 0u128);
    // no elapsed time, no reward
    assert_eq!(query_reward(&setup.staking, &setup.user1.clone(), setup.now).amount, 0u128);
    // after the lockup window the estimate matches the formula
    let later = setup.now + setup.period;
    assert_eq!(query_reward(&setup.staking, &setup.user1.clone(), later).amount, 821u128);
}
