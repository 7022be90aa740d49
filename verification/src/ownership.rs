//! Messages of the external ownership module.
//!
//! The staking engine does not interpret the two-step ownership
//! handshake itself: the host forwards these actions verbatim to the
//! module that owns them.  They are carried here as plain data so the
//! instruction surface of the contract is complete.

use vstd::prelude::*;

verus! {

/// When a pending ownership transfer lapses.
pub enum Expiration {
    AtHeight(u64),
    AtTime(u64),
    Never {},
}

/// A step of the two-step ownership-transfer handshake.
pub enum Action {
    TransferOwnership { new_owner: String, expiry: Option<Expiration> },
    AcceptOwnership,
    RenounceOwnership,
}

} // verus!
