//! The token ledger's state and its conservation invariant.

use vstd::prelude::*;
use crate::pair_table::PairTable;
use crate::table::Table;

verus! {

/// The token's descriptive data and its circulating supply.
pub struct TokenInfo {
    pub name: String,
    pub symbol: String,
    pub decimals: u8,
    pub total_supply: u128,
}

/// The projection the balance ledger is summed by: the balance itself.
pub open spec fn amount_of() -> spec_fn(u128) -> int {
    |v: u128| v as int
}

/// An account's balance under the convention that absent accounts hold
/// zero.
pub open spec fn balance_or_zero(m: Map<Seq<char>, u128>, addr: Seq<char>) -> u128 {
    if m.contains_key(addr) {
        m[addr]
    } else {
        0
    }
}

/// An owner/spender allowance under the convention that an ungranted
/// allowance is zero.
pub open spec fn allowance_or_zero(
    m: Map<(Seq<char>, Seq<char>), u128>,
    owner: Seq<char>,
    spender: Seq<char>,
) -> u128 {
    if m.contains_key((owner, spender)) {
        m[(owner, spender)]
    } else {
        0
    }
}

/// The whole token ledger: token data, per-account balances, and
/// owner/spender allowances.
pub struct TokenState {
    pub info: TokenInfo,
    pub balances: Table<u128>,
    pub allowances: PairTable<u128>,
}

impl TokenState {
    /// The conservation invariant: ledger keys are unique and the
    /// circulating supply equals the sum of all balances.
    pub open spec fn wf(&self) -> bool {
        &&& self.balances.wf()
        &&& self.allowances.wf()
        &&& self.info.total_supply as int == self.balances.sum_by(amount_of())
    }
}

} // verus!
