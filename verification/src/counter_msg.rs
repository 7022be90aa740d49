//! The counter contract's message surface.

use vstd::prelude::*;
use crate::ownership::Action;

verus! {

pub struct InstantiateMsg {
    pub count: i32,
    pub owner: Option<String>,
}

pub enum ExecuteMsg {
    Increment {},
    Reset { count: i32 },
    UpdateOwnership(Action),
}

pub enum QueryMsg {
    GetCount {},
    Ownership {},
}

pub struct CountResponse {
    pub count: i32,
}

} // verus!
