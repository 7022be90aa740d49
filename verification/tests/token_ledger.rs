//! The token ledger on its own: transfers, burns, mints, allowances,
//! and the supply conservation they maintain.

use staking::cw20_contract::{
    execute_approve, execute_burn, execute_mint, execute_tranfer, execute_tranfer_from,
    instantiate, query_allowance, query_balance, query_token_info,
};
use staking::cw20_error::ContractError;

fn addr(s: &str) -> String {
    s.to_string()
}

#[test]
fn token_instantiate_starts_empty() {
    let token = instantiate("Test Token".to_string(), "TST".to_string(), 18);
    let info = query_token_info(&token);
    assert_eq!(info.name, "Test Token");
    assert_eq!(info.symbol, "TST");
    assert_eq!(info.decimals, 18);
    assert_eq!(info.total_supply, 0u128);
    assert_eq!(query_balance(&token, &addr("alice")).balance, 0u128);
}

#[test]
fn token_mint_and_transfer() {
    let mut token = instantiate("Test Token".to_string(), "TST".to_string(), 18);
    execute_mint(&mut token, true, &addr("alice"), 500).unwrap();
    assert_eq!(query_balance(&token, &addr("alice")).balance, 500u128);
    assert_eq!(query_token_info(&token).total_supply, 500u128);

    execute_tranfer(&mut token, &addr("alice"), &addr("bob"), 200).unwrap();
    assert_eq!(query_balance(&token, &addr("alice")).balance, 300u128);
    assert_eq!(query_balance(&token, &addr("bob")).balance, 200u128);
    // transfers conserve the supply
    assert_eq!(query_token_info(&token).total_supply, 500u128);
}

#[test]
fn token_transfer_insufficient_balance() {
    let mut token = instantiate("Test Token".to_string(), "TST".to_string(), 18);
    execute_mint(&mut token, true, &addr("alice"), 100).unwrap();
    let err = execute_tranfer(&mut token, &addr("alice"), &addr("bob"), 101).unwrap_err();
    assert_eq!(err, ContractError::InsufficientBalance {});
    assert_eq!(query_balance(&token, &addr("alice")).balance, 100u128);
    assert_eq!(query_balance(&token, &addr("bob")).balance, 0u128);
}

#[test]
fn token_transfer_to_self_changes_nothing() {
    let mut token = instantiate("Test Token".to_string(), "TST".to_string(), 18);
    execute_mint(&mut token, true, &addr("alice"), 100).unwrap();
    execute_tranfer(&mut token, &addr("alice"), &addr("alice"), 60).unwrap();
    assert_eq!(query_balance(&token, &addr("alice")).balance, 100u128);
    assert_eq!(query_token_info(&token).total_supply, 100u128);
}

#[test]
fn token_burn_shrinks_supply() {
    let mut token = instantiate("Test Token".to_string(), "TST".to_string(), 18);
    execute_mint(&mut token, true, &addr("alice"), 100).unwrap();
    execute_burn(&mut token, &addr("alice"), 40).unwrap();
    assert_eq!(query_balance(&token, &addr("alice")).balance, 60u128);
    assert_eq!(query_token_info(&token).total_supply, 60u128);

    let err = execute_burn(&mut token, &addr("alice"), 61).unwrap_err();
    assert_eq!(err, ContractError::InsufficientBalance {});
    assert_eq!(query_token_info(&token).total_supply, 60u128);
}

#[test]
fn token_mint_requires_owner() {
    let mut token = instantiate("Test Token".to_string(), "TST".to_string(), 18);
    let err = execute_mint(&mut token, false, &addr("alice"), 100).unwrap_err();
    assert_eq!(err, ContractError::Unauthorized {});
    assert_eq!(query_balance(&token, &addr("alice")).balance, 0u128);
    assert_eq!(query_token_info(&token).total_supply, 0u128);
}

#[test]
fn token_transfer_from_spends_allowance() {
    let mut token = instantiate("Test Token".to_string(), "TST".to_string(), 18);
    execute_mint(&mut token, true, &addr("alice"), 1000).unwrap();
    execute_approve(&mut token, &addr("alice"), &addr("spender"), 300).unwrap();
    assert_eq!(query_allowance(&token, &addr("alice"), &addr("spender")).allowance, 300u128);

    execute_tranfer_from(&mut token, &addr("spender"), &addr("alice"), &addr("bob"), 200)
        .unwrap();
    assert_eq!(query_balance(&token, &addr("alice")).balance, 800u128);
    assert_eq!(query_balance(&token, &addr("bob")).balance, 200u128);
    assert_eq!(query_allowance(&token, &addr("alice"), &addr("spender")).allowance, 100u128);

    let err = execute_tranfer_from(&mut token, &addr("spender"), &addr("alice"), &addr("bob"), 101)
        .unwrap_err();
    assert_eq!(err, ContractError::InsufficientAllowance {});
    assert_eq!(query_balance(&token, &addr("bob")).balance, 200u128);
}

#[test]
fn token_transfer_from_insufficient_balance() {
    let mut token = instantiate("Test Token".to_string(), "TST".to_string(), 18);
    execute_mint(&mut token, true, &addr("alice"), 100).unwrap();
    execute_approve(&mut token, &addr("alice"), &addr("spender"), 500).unwrap();
    let err = execute_tranfer_from(&mut token, &addr("spender"), &addr("alice"), &addr("bob"), 200)
        .unwrap_err();
    assert_eq!(err, ContractError::InsufficientBalance {});
    // the failed call used up no allowance
    assert_eq!(query_allowance(&token, &addr("alice"), &addr("spender")).allowance, 500u128);
    assert_eq!(query_balance(&token, &addr("alice")).balance, 100u128);
}

#[test]
fn token_approve_overwrites() {
    let mut token = instantiate("Test Token".to_string(), "TST".to_string(), 18);
    execute_approve(&mut token, &addr("alice"), &addr("spender"), 300).unwrap();
    execute_approve(&mut token, &addr("alice"), &addr("spender"), 50).unwrap();
    assert_eq!(query_allowance(&token, &addr("alice"), &addr("spender")).allowance, 50u128);
    // an ungranted pair reads as zero
    assert_eq!(query_allowance(&token, &addr("alice"), &addr("other")).allowance, 0u128);
}
