//! An owner-gated counter.
//!
//! The counter never goes negative: a negative initial value or reset is
//! rejected, and only the owner may change the count.  As elsewhere, the
//! owner capability lives in an external ownership module and the host
//! passes its verdict in as `is_owner`.

use vstd::prelude::*;
use crate::counter_error::ContractError;
use crate::counter_msg::CountResponse;

verus! {

/// The counter's whole state.
#[derive(Debug)]
pub struct CounterState {
    pub count: i32,
}

impl CounterState {
    /// The counter's invariant: it is never negative.
    pub open spec fn wf(&self) -> bool {
        self.count >= 0
    }
}

/// Set up the counter, rejecting a negative start value.
pub fn instantiate(count: i32) -> (r: Result<CounterState, ContractError>)
    ensures
        count < 0 ==> r == Err::<CounterState, ContractError>(ContractError::NegativeCount {}),
        count >= 0 ==> r == Ok::<CounterState, ContractError>((CounterState { count })) && (
        CounterState { count }).wf(),
{
    if count < 0 {
        return Err(ContractError::NegativeCount {});
    }
    Ok(CounterState { count })
}

/// Add one to the count.  Only the owner may do so.
pub fn execute_increment(state: &mut CounterState, is_owner: bool) -> (r: Result<
    (),
    ContractError,
>)
    requires
        old(state).wf(),
        old(state).count < i32::MAX,
    ensures
        final(state).wf(),
        !is_owner ==> r == Err::<(), ContractError>(ContractError::Unauthorized {}) && *final(state) == *old(state),
        is_owner ==> r is Ok && final(state).count == old(state).count + 1,
{
    if !is_owner {
        return Err(ContractError::Unauthorized {});
    }
    state.count = state.count + 1;
    Ok(())
}

/// Overwrite the count, rejecting a negative value.  Only the owner may
/// do so.
pub fn execute_reset(state: &mut CounterState, is_owner: bool, count: i32) -> (r: Result<
    (),
    ContractError,
>)
    requires
        old(state).wf(),
    ensures
        final(state).wf(),
        !is_owner ==> r == Err::<(), ContractError>(ContractError::Unauthorized {}) && *final(state) == *old(state),
        is_owner && count < 0 ==> r == Err::<(), ContractError>(ContractError::NegativeCount {})
            && *final(state) == *old(state),
        is_owner && count >= 0 ==> r is Ok && final(state).count == count,
{
    if !is_owner {
        return Err(ContractError::Unauthorized {});
    }
    if count < 0 {
        return Err(ContractError::NegativeCount {});
    }
    state.count = count;
    Ok(())
}

/// The current count.
pub fn query_count(state: &CounterState) -> (resp: CountResponse)
    ensures
        resp.count == state.count,
{
    CountResponse { count: state.count }
}

} // verus!
