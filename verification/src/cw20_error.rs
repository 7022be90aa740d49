//! The errors the token ledger can answer with.

use vstd::prelude::*;

verus! {

#[derive(Debug, PartialEq, Eq, Clone, Copy)]
pub enum ContractError {
    /// The caller's balance does not cover the requested amount.
    InsufficientBalance {},
    /// The granted allowance does not cover the requested amount.
    InsufficientAllowance {},
    /// Minting is reserved to the holder of the owner capability.
    Unauthorized {},
}

} // verus!
