//! The accounts that each operation is called with.
//!
//! An operation names the accounts it touches by address, and the identity on
//! whose behalf it runs, with the word of whoever hands the call in on whether
//! that identity signed it. The ledger checks each address against its
//! records, and the caller's identity and signature against the rule of the
//! operation, before it moves anything.

use vstd::prelude::*;
use crate::address::Address;

verus! {

/// The identity on whose behalf an operation is called.
#[derive(Clone, Copy, Debug, PartialEq, Eq)]
pub struct Caller {
    /// Who the caller is.
    pub key: Address,
    /// Whether the caller signed the call.
    pub signed: bool,
}

impl Caller {
    /// The caller who is `key` and signed the call.
    pub open spec fn signed_by(key: Address) -> Caller {
        Caller { key, signed: true }
    }

    /// A caller who signed the call.
    pub fn signer(key: Address) -> (caller: Caller)
        ensures
            caller == Caller::signed_by(key),
    {
        Caller { key, signed: true }
    }

    /// Someone who is named as the caller, but did not sign the call.
    pub fn unsigned(key: Address) -> (caller: Caller)
        ensures
            caller == (Caller { key, signed: false }),
    {
        Caller { key, signed: false }
    }
}

/// Accounts for creating the configuration record.
#[derive(Clone, Copy, Debug, PartialEq, Eq)]
pub struct InitializeConfig {
    /// Where the configuration record is to be created.
    pub config: Address,
    /// The caller, who becomes the admin.
    pub admin: Caller,
}

/// Accounts for changing the configuration record.
#[derive(Clone, Copy, Debug, PartialEq, Eq)]
pub struct UpdateConfig {
    /// The configuration record.
    pub config: Address,
    /// The caller.
    pub admin: Caller,
}

/// Accounts for locking the funds of a ride.
#[derive(Clone, Copy, Debug, PartialEq, Eq)]
pub struct InitializeRide {
    /// Where the ride's escrow record is to be created.
    pub ride_account: Address,
    /// Where the ride's custody account is to be created.
    pub vault: Address,
    /// The caller, whose funds are locked.
    pub passenger: Caller,
    /// Who is to be paid for the ride.
    pub driver: Address,
}

/// Accounts for settling a ride.
#[derive(Clone, Copy, Debug, PartialEq, Eq)]
pub struct CompleteRide {
    /// The ride's escrow record.
    pub ride_account: Address,
    /// The ride's custody account.
    pub vault: Address,
    /// The configuration record.
    pub config: Address,
    /// The passenger of the ride.
    pub passenger: Address,
    /// The driver's wallet, which receives the driver's share.
    pub driver: Address,
    /// The platform's wallet, which receives the fee.
    pub company_wallet: Address,
    /// The caller.
    pub authority: Caller,
}

} // verus!
