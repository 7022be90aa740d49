//! The errors the counter contract can answer with.

use vstd::prelude::*;

verus! {

#[derive(Debug, PartialEq, Eq, Clone, Copy)]
pub enum ContractError {
    /// The counter never holds a negative value.
    NegativeCount {},
    /// Only the owner may change the counter.
    Unauthorized {},
}

} // verus!
