//! The token ledger's state transitions.
//!
//! Balances and allowances are plain maps; every transition checks its
//! preconditions before touching anything, so an error leaves the ledger
//! exactly as it was.  The owner capability (which gates minting) lives
//! in an external ownership module; the host passes its verdict in as
//! `is_owner`.

use vstd::prelude::*;
use crate::cw20_error::ContractError;
use crate::cw20_msg::AllowanceResponse;
use crate::cw20_msg::BalanceResponse;
use crate::cw20_msg::TokenInfoResponse;
use crate::cw20_state::allowance_or_zero;
use crate::cw20_state::amount_of;
use crate::cw20_state::balance_or_zero;
use crate::cw20_state::TokenInfo;
use crate::cw20_state::TokenState;
use crate::pair_table::PairTable;
use crate::table::lemma_sum_by_member;
use crate::table::Table;

verus! {

/// Set up the ledger: the given token data, no balances, no allowances,
/// and a zero supply.
pub fn instantiate(name: String, symbol: String, decimals: u8) -> (t: TokenState)
    ensures
        t.wf(),
        t.info == (TokenInfo { name, symbol, decimals, total_supply: 0 }),
        t.balances@ == Map::<Seq<char>, u128>::empty(),
        t.allowances@ == Map::<(Seq<char>, Seq<char>), u128>::empty(),
{
    TokenState {
        info: TokenInfo { name, symbol, decimals, total_supply: 0 },
        balances: Table::new(),
        allowances: PairTable::new(),
    }
}

/// Move `amount` from `sender`'s balance to `recipient`'s.
pub fn execute_tranfer(
    state: &mut TokenState,
    sender: &String,
    recipient: &String,
    amount: u128,
) -> (r: Result<(), ContractError>)
    requires
        old(state).wf(),
    ensures
        final(state).wf(),
        final(state).info == old(state).info,
        final(state).allowances@ == old(state).allowances@,
        balance_or_zero(old(state).balances@, sender@) < amount ==> r == Err::<(), ContractError>(
            ContractError::InsufficientBalance {},
        ) && *final(state) == *old(state),
        balance_or_zero(old(state).balances@, sender@) >= amount ==> r is Ok && ({
            let mid = old(state).balances@.insert(
                sender@,
                (balance_or_zero(old(state).balances@, sender@) - amount) as u128,
            );
            final(state).balances@ == mid.insert(
                recipient@,
                (balance_or_zero(mid, recipient@) + amount) as u128,
            )
        }),
{
    let sender_bal: u128 = match state.balances.get(sender) {
        Some(v) => v,
        None => 0,
    };
    if sender_bal < amount {
        return Err(ContractError::InsufficientBalance {});
    }
    proof {
        if state.balances@.contains_key(sender@) {
            lemma_sum_by_member(&state.balances, sender@, amount_of());
        }
    }
    state.balances.set(sender, sender_bal - amount);
    let rcpt_bal: u128 = match state.balances.get(recipient) {
        Some(v) => v,
        None => 0,
    };
    proof {
        if state.balances@.contains_key(recipient@) {
            lemma_sum_by_member(&state.balances, recipient@, amount_of());
        }
        assert(state.balances.sum_by(amount_of()) == old(state).balances.sum_by(amount_of())
            - amount);
    }
    state.balances.set(recipient, rcpt_bal + amount);
    proof {
        assert(state.balances.sum_by(amount_of()) == old(state).balances.sum_by(amount_of()));
    }
    Ok(())
}

/// Destroy `amount` of `sender`'s balance, shrinking the supply.
pub fn execute_burn(state: &mut TokenState, sender: &String, amount: u128) -> (r: Result<
    (),
    ContractError,
>)
    requires
        old(state).wf(),
    ensures
        final(state).wf(),
        final(state).allowances@ == old(state).allowances@,
        balance_or_zero(old(state).balances@, sender@) < amount ==> r == Err::<(), ContractError>(
            ContractError::InsufficientBalance {},
        ) && *final(state) == *old(state),
        balance_or_zero(old(state).balances@, sender@) >= amount ==> r is Ok && final(state).balances@ == old(state).balances@.insert(
            sender@,
            (balance_or_zero(old(state).balances@, sender@) - amount) as u128,
        ) && final(state).info.total_supply == old(state).info.total_supply - amount && final(state).info.name == old(state).info.name && final(state).info.symbol == old(state).info.symbol
            && final(state).info.decimals == old(state).info.decimals,
{
    let sender_bal: u128 = match state.balances.get(sender) {
        Some(v) => v,
        None => 0,
    };
    if sender_bal < amount {
        return Err(ContractError::InsufficientBalance {});
    }
    proof {
        if state.balances@.contains_key(sender@) {
            lemma_sum_by_member(&state.balances, sender@, amount_of());
        }
    }
    state.balances.set(sender, sender_bal - amount);
    state.info.total_supply = state.info.total_supply - amount;
    proof {
        assert(state.balances.sum_by(amount_of()) == old(state).balances.sum_by(amount_of())
            - amount);
    }
    Ok(())
}

/// Create `amount` new tokens on `recipient`'s balance, growing the
/// supply.  Only the owner may mint.
pub fn execute_mint(
    state: &mut TokenState,
    is_owner: bool,
    recipient: &String,
    amount: u128,
) -> (r: Result<(), ContractError>)
    requires
        old(state).wf(),
        old(state).info.total_supply + amount <= u128::MAX,
    ensures
        final(state).wf(),
        final(state).allowances@ == old(state).allowances@,
        !is_owner ==> r == Err::<(), ContractError>(ContractError::Unauthorized {}) && *final(state) == *old(state),
        is_owner ==> r is Ok && final(state).balances@ == old(state).balances@.insert(
            recipient@,
            (balance_or_zero(old(state).balances@, recipient@) + amount) as u128,
        ) && final(state).info.total_supply == old(state).info.total_supply + amount && final(state).info.name == old(state).info.name && final(state).info.symbol == old(state).info.symbol
            && final(state).info.decimals == old(state).info.decimals,
{
    if !is_owner {
        return Err(ContractError::Unauthorized {});
    }
    let rcpt_bal: u128 = match state.balances.get(recipient) {
        Some(v) => v,
        None => 0,
    };
    proof {
        if state.balances@.contains_key(recipient@) {
            lemma_sum_by_member(&state.balances, recipient@, amount_of());
        }
    }
    state.balances.set(recipient, rcpt_bal + amount);
    state.info.total_supply = state.info.total_supply + amount;
    proof {
        assert(state.balances.sum_by(amount_of()) == old(state).balances.sum_by(amount_of())
            + amount);
    }
    Ok(())
}

/// Grant `spender` the right to move up to `amount` of `sender`'s
/// balance.  An earlier grant is overwritten, not added to.
pub fn execute_approve(
    state: &mut TokenState,
    sender: &String,
    spender: &String,
    amount: u128,
) -> (r: Result<(), ContractError>)
    requires
        old(state).wf(),
    ensures
        final(state).wf(),
        final(state).info == old(state).info,
        final(state).balances@ == old(state).balances@,
        final(state).allowances@ == old(state).allowances@.insert((sender@, spender@), amount),
        r is Ok,
{
    state.allowances.set(sender, spender, amount);
    Ok(())
}

/// Move `amount` from `owner`'s balance to `recipient`'s on the strength
/// of an allowance `owner` granted to `sender`, and use that much of the
/// allowance up.
pub fn execute_tranfer_from(
    state: &mut TokenState,
    sender: &String,
    owner: &String,
    recipient: &String,
    amount: u128,
) -> (r: Result<(), ContractError>)
    requires
        old(state).wf(),
    ensures
        final(state).wf(),
        final(state).info == old(state).info,
        allowance_or_zero(old(state).allowances@, owner@, sender@) < amount ==> r == Err::<
            (),
            ContractError,
        >(ContractError::InsufficientAllowance {}) && *final(state) == *old(state),
        allowance_or_zero(old(state).allowances@, owner@, sender@) >= amount && balance_or_zero(
            old(state).balances@,
            owner@,
        ) < amount ==> r == Err::<(), ContractError>(ContractError::InsufficientBalance {})
            && *final(state) == *old(state),
        allowance_or_zero(old(state).allowances@, owner@, sender@) >= amount && balance_or_zero(
            old(state).balances@,
            owner@,
        ) >= amount ==> r is Ok && final(state).allowances@ == old(state).allowances@.insert(
            (owner@, sender@),
            (allowance_or_zero(old(state).allowances@, owner@, sender@) - amount) as u128,
        ) && ({
            let mid = old(state).balances@.insert(
                owner@,
                (balance_or_zero(old(state).balances@, owner@) - amount) as u128,
            );
            final(state).balances@ == mid.insert(
                recipient@,
                (balance_or_zero(mid, recipient@) + amount) as u128,
            )
        }),
{
    let allowance: u128 = match state.allowances.get(owner, sender) {
        Some(v) => v,
        None => 0,
    };
    if allowance < amount {
        return Err(ContractError::InsufficientAllowance {});
    }
    let owner_bal: u128 = match state.balances.get(owner) {
        Some(v) => v,
        None => 0,
    };
    if owner_bal < amount {
        return Err(ContractError::InsufficientBalance {});
    }
    state.allowances.set(owner, sender, allowance - amount);
    proof {
        if state.balances@.contains_key(owner@) {
            lemma_sum_by_member(&state.balances, owner@, amount_of());
        }
    }
    state.balances.set(owner, owner_bal - amount);
    let rcpt_bal: u128 = match state.balances.get(recipient) {
        Some(v) => v,
        None => 0,
    };
    proof {
        if state.balances@.contains_key(recipient@) {
            lemma_sum_by_member(&state.balances, recipient@, amount_of());
        }
        assert(state.balances.sum_by(amount_of()) == old(state).balances.sum_by(amount_of())
            - amount);
    }
    state.balances.set(recipient, rcpt_bal + amount);
    proof {
        assert(state.balances.sum_by(amount_of()) == old(state).balances.sum_by(amount_of()));
    }
    Ok(())
}

/// The balance of `address`; zero when the account is unknown.
pub fn query_balance(state: &TokenState, address: &String) -> (resp: BalanceResponse)
    requires
        state.wf(),
    ensures
        resp.balance == balance_or_zero(state.balances@, address@),
{
    let balance: u128 = match state.balances.get(address) {
        Some(v) => v,
        None => 0,
    };
    BalanceResponse { balance }
}

/// The allowance `owner` has granted `spender`; zero when none was.
pub fn query_allowance(state: &TokenState, owner: &String, spender: &String) -> (resp:
    AllowanceResponse)
    requires
        state.wf(),
    ensures
        resp.allowance == allowance_or_zero(state.allowances@, owner@, spender@),
{
    let allowance: u128 = match state.allowances.get(owner, spender) {
        Some(v) => v,
        None => 0,
    };
    AllowanceResponse { allowance }
}

/// The token's descriptive data and circulating supply.
pub fn query_token_info(state: &TokenState) -> (resp: TokenInfoResponse)
    ensures
        resp.name == state.info.name,
        resp.symbol == state.info.symbol,
        resp.decimals == state.info.decimals,
        resp.total_supply == state.info.total_supply,
{
    TokenInfoResponse {
        name: state.info.name.clone(),
        symbol: state.info.symbol.clone(),
        decimals: state.info.decimals,
        total_supply: state.info.total_supply,
    }
}

} // verus!
