//! The split of a locked amount between the platform and the driver.
//!
//! The platform takes one twentieth of the amount, rounded down; the driver
//! takes the rest, so the rounding remainder goes to the driver and the two
//! shares always add up to the amount.

use vstd::prelude::*;

verus! {

/// The platform's share is the amount divided by this.
pub const FEE_DIVISOR: u64 = 20;

/// The platform's share of `amount`.
pub open spec fn company_fee_of(amount: nat) -> nat {
    amount / 20
}

/// The driver's share of `amount`.
pub open spec fn driver_amount_of(amount: nat) -> nat {
    (amount - company_fee_of(amount)) as nat
}

/// The two payments that settle a ride.
#[derive(Clone, Copy, Debug, PartialEq, Eq, Structural)]
pub struct Settlement {
    /// Paid to the platform.
    pub company_fee: u64,
    /// Paid to the driver.
    pub driver_amount: u64,
}

impl Settlement {
    /// The payments that settle a ride of `amount`.
    pub open spec fn of(amount: u64) -> Settlement {
        Settlement {
            company_fee: company_fee_of(amount as nat) as u64,
            driver_amount: driver_amount_of(amount as nat) as u64,
        }
    }

    /// Splits a locked amount into the platform's fee and the driver's share.
    pub fn split(amount: u64) -> (settlement: Settlement)
        ensures
            settlement == Settlement::of(amount),
            settlement.company_fee == amount / 20,
            settlement.company_fee + settlement.driver_amount == amount,
    {
        let company_fee: u64 = amount / FEE_DIVISOR;
        let driver_amount: u64 = amount - company_fee;
        Settlement { company_fee, driver_amount }
    }
}

/// The two shares add up to the amount, and the fee is the twentieth of the
/// amount with the remainder dropped: the largest number whose twentyfold does
/// not exceed the amount. The driver never gets less than nineteen times the
/// fee.
pub proof fn lemma_split_is_exact(amount: nat)
    ensures
        company_fee_of(amount) + driver_amount_of(amount) == amount,
        company_fee_of(amount) == amount / 20,
        20 * company_fee_of(amount) <= amount < 20 * company_fee_of(amount) + 20,
        19 * company_fee_of(amount) <= driver_amount_of(amount),
        amount < 20 ==> company_fee_of(amount) == 0 && driver_amount_of(amount) == amount,
{
}

} // verus!
