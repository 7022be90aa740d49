//! The staking engine's state and its conservation invariant.

use vstd::prelude::*;
use crate::reward::reward_fits;
use crate::table::Table;

verus! {

/// The engine's configuration: where the staked token lives, the annual
/// reward rate in basis points, and the minimum lockup in seconds.
pub struct Config {
    pub token_address: String,
    pub apr: u64,
    pub lockup_period: u64,
}

/// One account's position: the locked principal and the moment the
/// position's clock last started.
#[derive(Clone, Copy, PartialEq, Eq, Debug)]
pub struct StakeInfo {
    pub amount: u128,
    pub stake_time: u64,
}

/// The projection the ledger is summed by: a position's principal.
pub open spec fn principal_of() -> spec_fn(StakeInfo) -> int {
    |s: StakeInfo| s.amount as int
}

/// The staking engine's whole state: configuration, the per-account
/// ledger, and the running total of staked principal.
pub struct StakingState {
    pub config: Config,
    pub stakes: Table<StakeInfo>,
    pub total_staked: u128,
}

impl StakingState {
    /// The conservation invariant: ledger keys are unique and
    /// `total_staked` equals the sum of all principals.
    pub open spec fn wf(&self) -> bool {
        &&& self.stakes.wf()
        &&& self.total_staked as int == self.stakes.sum_by(principal_of())
    }

    /// The host clock has not fallen behind this account's position.
    /// The host guarantees a monotonically non-decreasing block clock,
    /// so this holds of every call it makes.
    pub open spec fn clock_at_or_after(&self, addr: Seq<char>, now: u64) -> bool {
        self.stakes@.contains_key(addr) ==> self.stakes@[addr].stake_time <= now
    }

    /// At time `now`, the reward formula for this account's position
    /// stays within 128-bit arithmetic.
    pub open spec fn reward_computable(&self, addr: Seq<char>, now: u64) -> bool {
        self.stakes@.contains_key(addr) ==> reward_fits(
            self.stakes@[addr].amount as int,
            now - self.stakes@[addr].stake_time,
            self.config.apr as int,
        )
    }
}

} // verus!
