//! The staking contract's message surface.

use vstd::prelude::*;
use crate::ownership::Action;
use crate::token_msg;

verus! {

pub struct InstantiateMsg {
    pub owner: String,
    pub token_address: String,
    pub reward_rate: u64,
    pub lockup_period: u64,
}

pub enum ExecuteMsg {
    Stake { amount: u128 },
    Unstake { amount: u128 },
    ClaimRewards {},
    ChangeConfig { new_apr: u64, new_lockup_period: u64 },
    UpdateOwnership(Action),
}

pub enum QueryMsg {
    Stake { address: String },
    Config {},
    Reward { address: String },
    TotalStaked {},
    Ownership {},
}

pub struct StakeResponse {
    pub amount: u128,
    pub stake_time: u64,
}

pub struct ConfigResponse {
    pub token_address: String,
    pub apr: u64,
    pub lockup_period: u64,
}

pub struct RewardResponse {
    pub amount: u128,
}

pub struct TotalStakedResponse {
    pub total: u128,
}

/// The outcome of a successful state transition: the instructions the
/// host must dispatch to the token ledger, in order, and the reward the
/// transition realized (zero when none was computed).
#[derive(Debug)]
pub struct Response {
    pub messages: Vec<token_msg::ExecuteMsg>,
    pub reward: u128,
}

} // verus!
