//! The token ledger's message surface.

use vstd::prelude::*;
use crate::ownership::Action;

verus! {

pub struct InstantiateMsg {
    pub owner: Option<String>,
    pub name: String,
    pub symbol: String,
    pub decimals: u8,
}

pub enum ExecuteMsg {
    Transfer { recipient: String, amount: u128 },
    Burn { amount: u128 },
    Mint { recipient: String, amount: u128 },
    Approve { spender: String, amount: u128 },
    TransferFrom { owner: String, recipient: String, amount: u128 },
    UpdateOwnership(Action),
}

pub enum QueryMsg {
    Balance { address: String },
    Allowance { owner: String, spender: String },
    TokenInfo {},
    Ownership {},
}

pub struct BalanceResponse {
    pub balance: u128,
}

pub struct AllowanceResponse {
    pub allowance: u128,
}

pub struct TokenInfoResponse {
    pub name: String,
    pub symbol: String,
    pub decimals: u8,
    pub total_supply: u128,
}

} // verus!
