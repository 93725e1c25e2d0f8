//! The escrow record of one ride.
//!
//! A record is created when the passenger's funds are locked and changes once,
//! when the ride is settled: `completed` starts out false and becomes true
//! exactly once. There is no way back and no other transition.

use vstd::prelude::*;
use crate::address::Address;
use crate::error::RideError;
use crate::fee::Settlement;

verus! {

/// The record of one ride as it is stored.
#[derive(Debug, PartialEq, Eq)]
pub struct RideAccount {
    /// Whose funds are locked.
    pub passenger: Address,
    /// Who is paid when the ride is settled.
    pub driver: Address,
    /// The locked amount.
    pub amount: u64,
    /// The caller's name for the ride; the record's and the custody account's
    /// addresses are derived from it.
    pub ride_id: String,
    /// Whether the ride has been settled.
    pub completed: bool,
}

/// The record of a ride that locks tokens rather than the native currency: the
/// same record.
pub type Escrow = RideAccount;

/// What a record holds.
pub ghost struct RideView {
    pub passenger: Address,
    pub driver: Address,
    pub amount: u64,
    pub ride_id: Seq<char>,
    pub completed: bool,
}

impl RideView {
    /// What the custody account owes to this ride: the amount while the ride is
    /// locked, nothing once it is settled.
    pub open spec fn locked_amount(self) -> nat {
        if self.completed {
            0
        } else {
            self.amount as nat
        }
    }

    /// The record after settlement.
    pub open spec fn settled(self) -> RideView {
        RideView { completed: true, ..self }
    }
}

impl View for RideAccount {
    type V = RideView;

    open spec fn view(&self) -> RideView {
        RideView {
            passenger: self.passenger,
            driver: self.driver,
            amount: self.amount,
            ride_id: self.ride_id@,
            completed: self.completed,
        }
    }
}

impl RideAccount {
    /// The record of a ride whose funds have just been locked.
    pub fn new(passenger: Address, driver: Address, amount: u64, ride_id: String) -> (ride:
        RideAccount)
        ensures
            ride@ == (RideView {
                passenger,
                driver,
                amount,
                ride_id: ride_id@,
                completed: false,
            }),
    {
        RideAccount { passenger, driver, amount, ride_id, completed: false }
    }

    /// The payments that settle this ride; a settled ride has none.
    pub fn settlement(&self) -> (plan: Result<Settlement, RideError>)
        ensures
            self.completed ==> plan == Err::<Settlement, RideError>(
                RideError::RideAlreadyCompleted,
            ),
            !self.completed ==> plan == Ok::<Settlement, RideError>(Settlement::of(self.amount)),
    {
        if self.completed {
            Err(RideError::RideAlreadyCompleted)
        } else {
            Ok(Settlement::split(self.amount))
        }
    }

    /// Marks the ride as settled. A ride is settled once: a second attempt is
    /// rejected and leaves the record as it is.
    pub fn complete(&mut self) -> (outcome: Result<(), RideError>)
        ensures
            old(self).completed ==> outcome == Err::<(), RideError>(
                RideError::RideAlreadyCompleted,
            ) && final(self)@ == old(self)@,
            !old(self).completed ==> outcome == Ok::<(), RideError>(()) && final(self)@ == old(
                self,
            )@.settled(),
    {
        if self.completed {
            return Err(RideError::RideAlreadyCompleted);
        }
        self.completed = true;
        Ok(())
    }

}

impl Clone for RideAccount {
    /// A copy of the record.
    fn clone(&self) -> (copy: RideAccount)
        ensures
            copy@ == self@,
    {
        RideAccount {
            passenger: self.passenger,
            driver: self.driver,
            amount: self.amount,
            ride_id: self.ride_id.clone(),
            completed: self.completed,
        }
    }
}

/// A ride as the ledger keeps it: the escrow record, and where the ride's
/// funds are held. The custody account has no key of its own; its address and
/// bump are what the derivation gave for the ride when the funds were locked.
#[derive(Debug, PartialEq, Eq)]
pub struct RideEntry {
    /// The escrow record.
    pub record: RideAccount,
    /// The address of the custody account.
    pub vault: Address,
    /// The bump seed with which the custody account's address was derived.
    pub bump: u8,
}

/// What the ledger keeps of a ride.
pub ghost struct RideEntryView {
    pub record: RideView,
    pub vault: Address,
    pub bump: u8,
}

impl RideEntryView {
    /// The entry after settlement.
    pub open spec fn settled(self) -> RideEntryView {
        RideEntryView { record: self.record.settled(), ..self }
    }
}

impl View for RideEntry {
    type V = RideEntryView;

    open spec fn view(&self) -> RideEntryView {
        RideEntryView { record: self.record@, vault: self.vault, bump: self.bump }
    }
}

} // verus!
