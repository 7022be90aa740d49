//! The message surface of the balance-lookup contract.
//!
//! The contract itself only stores who deployed it and forwards balance
//! queries to the host's bank module; both live at the host layer, so
//! only the message types are modelled here.

use vstd::prelude::*;

verus! {

/// A native coin: a denomination and an amount.
pub struct Coin {
    pub denom: String,
    pub amount: u128,
}

pub struct InstantiateMsg {}

pub enum QueryMsg {
    Balance { user: String },
    Deployer {},
}

pub struct BalanceResponse {
    pub balance: Coin,
}

pub struct DeployerResponse {
    pub deployer: String,
}

} // verus!
