//! The owner-gated counter.

use staking::counter_contract::{execute_increment, execute_reset, instantiate, query_count};
use staking::counter_error::ContractError;

#[test]
fn counter_rejects_negative_start() {
    let err = instantiate(-1).unwrap_err();
    assert_eq!(err, ContractError::NegativeCount {});
    let state = instantiate(5).unwrap();
    assert_eq!(query_count(&state).count, 5);
}

#[test]
fn counter_increment_requires_owner() {
    let mut state = instantiate(0).unwrap();
    let err = execute_increment(&mut state, false).unwrap_err();
    assert_eq!(err, ContractError::Unauthorized {});
    assert_eq!(query_count(&state).count, 0);

    execute_increment(&mut state, true).unwrap();
    execute_increment(&mut state, true).unwrap();
    assert_eq!(query_count(&state).count, 2);
}

#[test]
fn counter_reset_validates() {
    let mut state = instantiate(7).unwrap();
    let err = execute_reset(&mut state, false, 3).unwrap_err();
    assert_eq!(err, ContractError::Unauthorized {});
    assert_eq!(query_count(&state).count, 7);

    let err = execute_reset(&mut state, true, -3).unwrap_err();
    assert_eq!(err, ContractError::NegativeCount {});
    assert_eq!(query_count(&state).count, 7);

    execute_reset(&mut state, true, 3).unwrap();
    assert_eq!(query_count(&state).count, 3);
}
