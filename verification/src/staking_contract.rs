//! The staking orchestrator.
//!
//! Each entry point is an atomic state transition: it validates the
//! request against the current state, and either mutates the ledger and
//! returns the settlement instructions the host must dispatch, or
//! returns an error leaving the state exactly as it was.
//!
//! The owner capability lives in an external ownership module; the host
//! checks it there and passes the verdict in as `is_owner`.

use vstd::prelude::*;
use crate::reward::calculate_reward_apr;
use crate::reward::reward_of;
use crate::staking_error::ContractError;
use crate::staking_msg::ConfigResponse;
use crate::staking_msg::Response;
use crate::staking_msg::RewardResponse;
use crate::staking_msg::StakeResponse;
use crate::staking_msg::TotalStakedResponse;
use crate::staking_state::principal_of;
use crate::staking_state::Config;
use crate::staking_state::StakeInfo;
use crate::staking_state::StakingState;
use crate::table::lemma_sum_by_member;
use crate::table::Table;
use crate::token_msg::ExecuteMsg;

verus! {

/// Set up the engine: the given configuration, an empty ledger, and a
/// zero total.
pub fn instantiate(token_address: String, reward_rate: u64, lockup_period: u64) -> (s:
    StakingState)
    ensures
        s.wf(),
        s.config == (Config { token_address, apr: reward_rate, lockup_period }),
        s.total_staked == 0,
        s.stakes@ == Map::<Seq<char>, StakeInfo>::empty(),
{
    let stakes = Table::new();
    StakingState {
        config: Config { token_address, apr: reward_rate, lockup_period },
        stakes,
        total_staked: 0,
    }
}

/// Lock `amount` further tokens for `sender` at time `now`.
///
/// The emitted instruction pulls the funds from `sender` into the
/// contract's own account, so `sender` must have granted an allowance on
/// the token ledger beforehand.  A top-up restarts the position's clock
/// at `now`, forfeiting the reward accrued so far on the old principal.
/// A zero amount is not rejected; it creates or refreshes a position
/// with no economic effect.
pub fn execute_stake(
    state: &mut StakingState,
    sender: &String,
    contract_address: &String,
    amount: u128,
    now: u64,
) -> (r: Result<Response, ContractError>)
    requires
        old(state).wf(),
        old(state).total_staked + amount <= u128::MAX,
    ensures
        final(state).wf(),
        final(state).config == old(state).config,
        final(state).total_staked == old(state).total_staked + amount,
        ({
            let prev = if old(state).stakes@.contains_key(sender@) {
                old(state).stakes@[sender@].amount
            } else {
                0
            };
            final(state).stakes@ == old(state).stakes@.insert(
                sender@,
                (StakeInfo { amount: (prev + amount) as u128, stake_time: now }),
            )
        }),
        r matches Ok(resp) && resp.reward == 0 && resp.messages@ == seq![
            (ExecuteMsg::TransferFrom {
                owner: *sender,
                recipient: *contract_address,
                amount,
            }),
        ],
{
    let prev_amount: u128 = match state.stakes.get(sender) {
        Some(info) => info.amount,
        None => 0,
    };
    proof {
        if old(state).stakes@.contains_key(sender@) {
            lemma_sum_by_member(&state.stakes, sender@, principal_of());
        }
    }
    state.stakes.set(sender, StakeInfo { amount: prev_amount + amount, stake_time: now });
    state.total_staked = state.total_staked + amount;
    proof {
        assert(state.stakes.sum_by(principal_of()) == old(state).stakes.sum_by(principal_of())
            + amount);
    }
    let mut messages: Vec<ExecuteMsg> = Vec::new();
    messages.push(
        ExecuteMsg::TransferFrom {
            owner: sender.clone(),
            recipient: contract_address.clone(),
            amount,
        },
    );
    proof {
        assert(messages@ =~= seq![
            (ExecuteMsg::TransferFrom { owner: *sender, recipient: *contract_address, amount }),
        ]);
    }
    Ok(Response { messages, reward: 0 })
}

/// Withdraw `amount` of `sender`'s principal at time `now`, paying out
/// the reward accrued on the whole position.
///
/// The position must exist, must cover `amount`, and must have cleared
/// the lockup in full.  The reward mint (when the reward is non-zero) is
/// emitted before the principal transfer.  A partial withdrawal restarts
/// the remaining position's clock at `now`; a full one deletes the
/// position.
pub fn execute_unstake(state: &mut StakingState, sender: &String, amount: u128, now: u64) -> (r:
    Result<Response, ContractError>)
    requires
        old(state).wf(),
        old(state).clock_at_or_after(sender@, now),
        ({
            let m = old(state).stakes@;
            m.contains_key(sender@) && amount <= m[sender@].amount && now - m[sender@].stake_time
                >= old(state).config.lockup_period ==> old(state).reward_computable(sender@, now)
        }),
    ensures
        final(state).wf(),
        final(state).config == old(state).config,
        !old(state).stakes@.contains_key(sender@) ==> r == Err::<Response, ContractError>(
            ContractError::NoStake {},
        ) && *final(state) == *old(state),
        ({
            let m = old(state).stakes@;
            m.contains_key(sender@) && amount > m[sender@].amount ==> r == Err::<
                Response,
                ContractError,
            >(ContractError::InsufficientStake {}) && *final(state) == *old(state)
        }),
        ({
            let m = old(state).stakes@;
            m.contains_key(sender@) && amount <= m[sender@].amount && now - m[sender@].stake_time
                < old(state).config.lockup_period ==> r == Err::<Response, ContractError>(
                ContractError::LockupNotExpired {},
            ) && *final(state) == *old(state)
        }),
        ({
            let m = old(state).stakes@;
            let reward = reward_of(
                m[sender@].amount as int,
                now - m[sender@].stake_time,
                old(state).config.apr as int,
            );
            m.contains_key(sender@) && amount <= m[sender@].amount && now - m[sender@].stake_time
                >= old(state).config.lockup_period ==> {
                &&& r matches Ok(resp) && resp.reward as int == reward && resp.messages@ == (
                if reward != 0 {
                    seq![
                        (ExecuteMsg::Mint { recipient: *sender, amount: resp.reward }),
                        (ExecuteMsg::Transfer { recipient: *sender, amount }),
                    ]
                } else {
                    seq![(ExecuteMsg::Transfer { recipient: *sender, amount })]
                })
                &&& final(state).stakes@ == (if amount == m[sender@].amount {
                    m.remove(sender@)
                } else {
                    m.insert(
                        sender@,
                        (StakeInfo {
                            amount: (m[sender@].amount - amount) as u128,
                            stake_time: now,
                        }),
                    )
                })
                &&& final(state).total_staked == old(state).total_staked - amount
            }
        }),
{
    let stake_info = match state.stakes.get(sender) {
        Some(info) => info,
        None => {
            return Err(ContractError::NoStake {});
        },
    };
    if stake_info.amount < amount {
        return Err(ContractError::InsufficientStake {});
    }
    let staked_time = now - stake_info.stake_time;
    if staked_time < state.config.lockup_period {
        return Err(ContractError::LockupNotExpired {});
    }
    let reward_amount: u128 = match calculate_reward_apr(
        stake_info.amount,
        staked_time,
        state.config.apr,
    ) {
        Some(v) => v,
        None => unreached(),
    };
    let mut messages: Vec<ExecuteMsg> = Vec::new();
    if reward_amount != 0 {
        messages.push(ExecuteMsg::Mint { recipient: sender.clone(), amount: reward_amount });
    }
    messages.push(ExecuteMsg::Transfer { recipient: sender.clone(), amount });
    proof {
        lemma_sum_by_member(&state.stakes, sender@, principal_of());
    }
    let staking_remain = stake_info.amount - amount;
    if staking_remain == 0 {
        state.stakes.remove(sender);
    } else {
        state.stakes.set(sender, StakeInfo { amount: staking_remain, stake_time: now });
    }
    state.total_staked = state.total_staked - amount;
    proof {
        assert(state.stakes.sum_by(principal_of()) == old(state).stakes.sum_by(principal_of())
            - amount);
        if reward_amount != 0 {
            assert(messages@ =~= seq![
                (ExecuteMsg::Mint { recipient: *sender, amount: reward_amount }),
                (ExecuteMsg::Transfer { recipient: *sender, amount }),
            ]);
        } else {
            assert(messages@ =~= seq![(ExecuteMsg::Transfer { recipient: *sender, amount })]);
        }
    }
    Ok(Response { messages, reward: reward_amount })
}

/// Pay out the reward accrued on `sender`'s whole position at time
/// `now`, restarting the position's clock.
///
/// The position must exist and must have cleared the lockup; a zero
/// reward is rejected rather than minted, and in that case the clock is
/// not touched.
pub fn execute_claim_rewards(state: &mut StakingState, sender: &String, now: u64) -> (r: Result<
    Response,
    ContractError,
>)
    requires
        old(state).wf(),
        old(state).clock_at_or_after(sender@, now),
        ({
            let m = old(state).stakes@;
            m.contains_key(sender@) && now - m[sender@].stake_time >= old(state).config.lockup_period ==> old(state).reward_computable(sender@, now)
        }),
    ensures
        final(state).wf(),
        final(state).config == old(state).config,
        final(state).total_staked == old(state).total_staked,
        !old(state).stakes@.contains_key(sender@) ==> r == Err::<Response, ContractError>(
            ContractError::NoStake {},
        ) && *final(state) == *old(state),
        ({
            let m = old(state).stakes@;
            m.contains_key(sender@) && now - m[sender@].stake_time < old(state).config.lockup_period ==> r == Err::<Response, ContractError>(
                ContractError::LockupNotExpired {},
            ) && *final(state) == *old(state)
        }),
        ({
            let m = old(state).stakes@;
            let reward = reward_of(
                m[sender@].amount as int,
                now - m[sender@].stake_time,
                old(state).config.apr as int,
            );
            m.contains_key(sender@) && now - m[sender@].stake_time >= old(state).config.lockup_period ==> {
                &&& reward == 0 ==> r == Err::<Response, ContractError>(
                    ContractError::ZeroReward {},
                ) && *final(state) == *old(state)
                &&& reward != 0 ==> {
                    &&& r matches Ok(resp) && resp.reward as int == reward && resp.messages@
                        == seq![(ExecuteMsg::Mint { recipient: *sender, amount: resp.reward })]
                    &&& final(state).stakes@ == m.insert(
                        sender@,
                        (StakeInfo { amount: m[sender@].amount, stake_time: now }),
                    )
                }
            }
        }),
{
    let stake_info = match state.stakes.get(sender) {
        Some(info) => info,
        None => {
            return Err(ContractError::NoStake {});
        },
    };
    let staked_time = now - stake_info.stake_time;
    if staked_time < state.config.lockup_period {
        return Err(ContractError::LockupNotExpired {});
    }
    let reward_amount: u128 = match calculate_reward_apr(
        stake_info.amount,
        staked_time,
        state.config.apr,
    ) {
        Some(v) => v,
        None => unreached(),
    };
    if reward_amount == 0 {
        return Err(ContractError::ZeroReward {});
    }
    state.stakes.set(sender, StakeInfo { amount: stake_info.amount, stake_time: now });
    proof {
        assert(state.stakes.sum_by(principal_of()) == old(state).stakes.sum_by(principal_of()));
    }
    let mut messages: Vec<ExecuteMsg> = Vec::new();
    messages.push(ExecuteMsg::Mint { recipient: sender.clone(), amount: reward_amount });
    proof {
        assert(messages@ =~= seq![
            (ExecuteMsg::Mint { recipient: *sender, amount: reward_amount }),
        ]);
    }
    Ok(Response { messages, reward: reward_amount })
}

/// What a configuration change leaves behind: the token address stays,
/// the rate and the lockup are overwritten.
pub open spec fn config_after_change(prev: Config, new_apr: u64, new_lockup_period: u64) -> Config {
    Config { token_address: prev.token_address, apr: new_apr, lockup_period: new_lockup_period }
}

/// Configuration reads reflect exactly the last change: a change
/// overwrites any earlier one outright, every read afterwards sees the
/// new rate and lockup, and the token address never moves.
pub proof fn lemma_config_read_reflects_last_change(
    prev: Config,
    apr1: u64,
    lockup1: u64,
    apr2: u64,
    lockup2: u64,
)
    ensures
        config_after_change(config_after_change(prev, apr1, lockup1), apr2, lockup2)
            == config_after_change(prev, apr2, lockup2),
        config_after_change(prev, apr2, lockup2).apr == apr2,
        config_after_change(prev, apr2, lockup2).lockup_period == lockup2,
        config_after_change(prev, apr2, lockup2).token_address == prev.token_address,
{
}

/// Replace the reward rate and the lockup, keeping the token address.
///
/// Only the owner may do this; the new values apply to all future reward
/// computations, including the already elapsed part of every existing
/// position's window.  No bounds are placed on the new values.
pub fn execute_change_config(
    state: &mut StakingState,
    is_owner: bool,
    new_apr: u64,
    new_lockup_period: u64,
) -> (r: Result<Response, ContractError>)
    requires
        old(state).wf(),
    ensures
        final(state).wf(),
        !is_owner ==> r == Err::<Response, ContractError>(ContractError::Unauthorized {}) && *final(state) == *old(state),
        is_owner ==> {
            &&& final(state).config == config_after_change(
                old(state).config,
                new_apr,
                new_lockup_period,
            )
            &&& final(state).stakes == old(state).stakes
            &&& final(state).total_staked == old(state).total_staked
            &&& r matches Ok(resp) && resp.reward == 0 && resp.messages@ == Seq::<
                ExecuteMsg,
            >::empty()
        },
{
    if !is_owner {
        return Err(ContractError::Unauthorized {});
    }
    let token_address = state.config.token_address.clone();
    state.config = Config {
        token_address,
        apr: new_apr,
        lockup_period: new_lockup_period,
    };
    let messages: Vec<ExecuteMsg> = Vec::new();
    proof {
        assert(messages@ =~= Seq::<ExecuteMsg>::empty());
    }
    Ok(Response { messages, reward: 0 })
}

/// The current configuration.
pub fn query_config(state: &StakingState) -> (resp: ConfigResponse)
    ensures
        resp.token_address == state.config.token_address,
        resp.apr == state.config.apr,
        resp.lockup_period == state.config.lockup_period,
{
    ConfigResponse {
        token_address: state.config.token_address.clone(),
        apr: state.config.apr,
        lockup_period: state.config.lockup_period,
    }
}

/// The reward `address`'s position has accrued by `now`; zero when no
/// position exists.
pub fn query_reward(state: &StakingState, address: &String, now: u64) -> (resp: RewardResponse)
    requires
        state.wf(),
        state.clock_at_or_after(address@, now),
        state.reward_computable(address@, now),
    ensures
        resp.amount as int == if state.stakes@.contains_key(address@) {
            reward_of(
                state.stakes@[address@].amount as int,
                now - state.stakes@[address@].stake_time,
                state.config.apr as int,
            )
        } else {
            0
        },
{
    match state.stakes.get(address) {
        Some(info) => {
            let staked_time = now - info.stake_time;
            let reward_amount: u128 = match calculate_reward_apr(
                info.amount,
                staked_time,
                state.config.apr,
            ) {
                Some(v) => v,
                None => unreached(),
            };
            RewardResponse { amount: reward_amount }
        },
        None => RewardResponse { amount: 0 },
    }
}

/// The position of `address`: its principal and clock, or zeroes when
/// none exists.
pub fn query_stake(state: &StakingState, address: &String) -> (resp: StakeResponse)
    requires
        state.wf(),
    ensures
        state.stakes@.contains_key(address@) ==> resp.amount == state.stakes@[address@].amount
            && resp.stake_time == state.stakes@[address@].stake_time,
        !state.stakes@.contains_key(address@) ==> resp.amount == 0 && resp.stake_time == 0,
{
    match state.stakes.get(address) {
        Some(info) => StakeResponse { amount: info.amount, stake_time: info.stake_time },
        None => StakeResponse { amount: 0, stake_time: 0 },
    }
}

/// The running total of staked principal.
pub fn query_total_staked(state: &StakingState) -> (resp: TotalStakedResponse)
    ensures
        resp.total == state.total_staked,
{
    TotalStakedResponse { total: state.total_staked }
}

} // verus!
