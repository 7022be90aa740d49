//! The errors the staking engine can answer with.
//!
//! Every error is detected before any state is touched, so a failed
//! call leaves the engine exactly as it found it.

use vstd::prelude::*;

verus! {

#[derive(Debug, PartialEq, Eq, Clone, Copy)]
pub enum ContractError {
    /// The caller does not hold the owner capability.
    Unauthorized {},
    /// The position has not yet been held for the configured lockup.
    LockupNotExpired {},
    /// The withdrawal asks for more than the position holds.
    InsufficientStake {},
    /// The accrued reward is zero, so there is nothing to claim.
    ZeroReward {},
    /// The caller has no stake position.
    NoStake {},
}

} // verus!
