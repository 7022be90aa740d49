//! A verified staking ledger and its collaborators.
//!
//! The heart of the crate is the staking orchestrator: accounts lock a
//! fungible token, accrue time-weighted rewards at a configurable annual
//! rate, and may withdraw principal and rewards once a minimum lockup has
//! elapsed.  Settlement happens through instructions addressed to an
//! external token ledger; each state transition returns the instructions
//! it wants executed, and the host dispatches them after the transition
//! commits.
//!
//! Alongside the staking engine live a small token ledger, a counter, and
//! the message surfaces of their neighbouring contracts.

pub mod balance_msg;
pub mod counter_contract;
pub mod counter_error;
pub mod counter_msg;
pub mod cw20_contract;
pub mod cw20_error;
pub mod cw20_msg;
pub mod cw20_state;
pub mod ownership;
pub mod pair_table;
pub mod reward;
pub mod staking_contract;
pub mod staking_error;
pub mod staking_msg;
pub mod staking_state;
pub mod table;
pub mod token_msg;

pub use table::Table;
