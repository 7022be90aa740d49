//! The message surface of the token-ledger collaborator.
//!
//! The staking engine settles principal and rewards by emitting these
//! instructions; the host serializes them and dispatches them to the
//! token contract after the staking state has committed.

use vstd::prelude::*;

verus! {

pub struct InstantiateMsg {
    pub name: String,
    pub symbol: String,
    pub decimals: u8,
    pub minter: Option<String>,
}

#[derive(Debug)]
pub enum ExecuteMsg {
    Transfer { recipient: String, amount: u128 },
    Burn { amount: u128 },
    Mint { recipient: String, amount: u128 },
    Approve { spender: String, amount: u128 },
    TransferFrom { owner: String, recipient: String, amount: u128 },
    UpdateMinter { new_minter: Option<String> },
}

pub enum QueryMsg {
    Balance { address: String },
    Allowance { owner: String, spender: String },
    TokenInfo {},
    Minter {},
}

pub struct BalanceResponse {
    pub balance: u128,
}

pub struct AllowanceResponse {
    pub allowance: u128,
}

pub struct TokenInfoResponse {
    pub name: String,
    pub symbol: String,
    pub decimals: u8,
    pub total_supply: u128,
}

pub struct MinterResponse {
    pub minter: Option<String>,
}

/// An account together with a token amount, as initial holdings are
/// listed when a token is set up.
pub struct Cw20Coin {
    pub address: String,
    pub amount: u128,
}

} // verus!
