//! Balances, and the two halves of a transfer.
//!
//! A bank holds the balance of each account it knows. Value moves by taking
//! an amount out of one account and putting it into another; each half either
//! happens in full or is rejected and changes nothing.

use vstd::prelude::*;
use crate::address::Address;
use crate::error::RideError;
use crate::table::AddressMap;

verus! {

/// The balances after `amount` was taken out of `from`, or why it cannot be.
pub open spec fn debited(balances: Map<Seq<u8>, u64>, from: Seq<u8>, amount: u64) -> Result<
    Map<Seq<u8>, u64>,
    RideError,
> {
    if !balances.dom().contains(from) || balances[from] < amount {
        Err(RideError::InsufficientFunds)
    } else {
        Ok(balances.insert(from, (balances[from] - amount) as u64))
    }
}

/// The balances after `amount` was put into `to`, or why it cannot be.
pub open spec fn credited(balances: Map<Seq<u8>, u64>, to: Seq<u8>, amount: u64) -> Result<
    Map<Seq<u8>, u64>,
    RideError,
> {
    if !balances.dom().contains(to) || balances[to] + amount > u64::MAX {
        Err(RideError::TransferFailed)
    } else {
        Ok(balances.insert(to, (balances[to] + amount) as u64))
    }
}

/// The sum of all balances.
pub open spec fn total(balances: Map<Seq<u8>, u64>) -> nat
    decreases balances.dom().len(),
{
    if balances.dom().finite() && balances.dom().len() > 0 {
        let key = balances.dom().choose();
        balances[key] as nat + total(balances.remove(key))
    } else {
        0
    }
}

/// The sum can be taken in any order: it is the balance of any one account
/// plus the sum of the others.
pub proof fn lemma_total_remove(balances: Map<Seq<u8>, u64>, key: Seq<u8>)
    requires
        balances.dom().finite(),
        balances.dom().contains(key),
    ensures
        total(balances) == balances[key] + total(balances.remove(key)),
    decreases balances.dom().len(),
{
    let first = balances.dom().choose();
    if first != key {
        lemma_total_remove(balances.remove(first), key);
        lemma_total_remove(balances.remove(key), first);
        assert(balances.remove(first).remove(key) =~= balances.remove(key).remove(first));
    }
}

/// Setting one balance changes the sum by the difference.
pub proof fn lemma_total_insert(balances: Map<Seq<u8>, u64>, key: Seq<u8>, amount: u64)
    requires
        balances.dom().finite(),
    ensures
        balances.dom().contains(key) ==> total(balances.insert(key, amount)) + balances[key]
            == total(balances) + amount,
        !balances.dom().contains(key) ==> total(balances.insert(key, amount)) == total(balances)
            + amount,
{
    let after = balances.insert(key, amount);
    lemma_total_remove(after, key);
    if balances.dom().contains(key) {
        lemma_total_remove(balances, key);
        assert(after.remove(key) =~= balances.remove(key));
    } else {
        assert(after.remove(key) =~= balances);
    }
}

/// Taking an amount out lowers the sum by the amount, and putting an amount
/// in raises it by the amount.
pub proof fn lemma_total_moves(balances: Map<Seq<u8>, u64>, key: Seq<u8>, amount: u64)
    requires
        balances.dom().finite(),
    ensures
        debited(balances, key, amount) matches Ok(after) ==> total(after) + amount == total(
            balances,
        ) && after.dom() == balances.dom(),
        credited(balances, key, amount) matches Ok(after) ==> total(after) == total(balances)
            + amount && after.dom() == balances.dom(),
{
    if debited(balances, key, amount) is Ok {
        lemma_total_insert(balances, key, (balances[key] - amount) as u64);
        assert(debited(balances, key, amount)->Ok_0.dom() =~= balances.dom());
    }
    if credited(balances, key, amount) is Ok {
        lemma_total_insert(balances, key, (balances[key] + amount) as u64);
        assert(credited(balances, key, amount)->Ok_0.dom() =~= balances.dom());
    }
}

/// The balances of a set of accounts.
pub struct Bank {
    accounts: AddressMap<u64>,
}

impl View for Bank {
    type V = Map<Seq<u8>, u64>;

    closed spec fn view(&self) -> Map<Seq<u8>, u64> {
        self.accounts@
    }
}

impl Bank {
    /// A bank without accounts.
    pub fn new() -> (bank: Bank)
        ensures
            bank@ == Map::<Seq<u8>, u64>::empty(),
    {
        Bank { accounts: AddressMap::new() }
    }

    /// Whether the bank knows the account.
    pub fn has_account(&self, key: &Address) -> (known: bool)
        ensures
            known == self@.dom().contains(key@),
    {
        self.accounts.contains_key(key)
    }

    /// The balance of an account, if the bank knows it.
    pub fn balance_of(&self, key: &Address) -> (balance: Option<u64>)
        ensures
            match balance {
                Some(amount) => self@.dom().contains(key@) && self@[key@] == amount,
                None => !self@.dom().contains(key@),
            },
    {
        match self.accounts.get(key) {
            Some(amount) => Some(*amount),
            None => None,
        }
    }

    /// Opens an account with a first balance. An address has one account: a
    /// second one is rejected.
    pub fn open(&mut self, key: Address, amount: u64) -> (outcome: Result<(), RideError>)
        ensures
            old(self)@.dom().contains(key@) ==> outcome == Err::<(), RideError>(
                RideError::AlreadyExists,
            ) && final(self)@ == old(self)@,
            !old(self)@.dom().contains(key@) ==> outcome == Ok::<(), RideError>(()) && final(self)@
                == old(self)@.insert(key@, amount),
    {
        if self.accounts.contains_key(&key) {
            return Err(RideError::AlreadyExists);
        }
        self.accounts.insert(key, amount);
        Ok(())
    }

    /// Takes `amount` out of `from`, provided the account holds that much.
    pub fn debit(&mut self, from: &Address, amount: u64) -> (outcome: Result<(), RideError>)
        ensures
            match outcome {
                Ok(()) => debited(old(self)@, from@, amount) == Ok::<Map<Seq<u8>, u64>, RideError>(
                    final(self)@,
                ),
                Err(error) => debited(old(self)@, from@, amount) == Err::<
                    Map<Seq<u8>, u64>,
                    RideError,
                >(error) && final(self)@ == old(self)@,
            },
    {
        match self.balance_of(from) {
            Some(balance) => {
                if balance < amount {
                    return Err(RideError::InsufficientFunds);
                }
                self.accounts.insert(*from, balance - amount);
                Ok(())
            },
            None => Err(RideError::InsufficientFunds),
        }
    }

    /// Puts `amount` into `to`, provided the account exists and its balance
    /// still fits.
    pub fn credit(&mut self, to: &Address, amount: u64) -> (outcome: Result<(), RideError>)
        ensures
            match outcome {
                Ok(()) => credited(old(self)@, to@, amount) == Ok::<Map<Seq<u8>, u64>, RideError>(
                    final(self)@,
                ),
                Err(error) => credited(old(self)@, to@, amount) == Err::<
                    Map<Seq<u8>, u64>,
                    RideError,
                >(error) && final(self)@ == old(self)@,
            },
    {
        match self.balance_of(to) {
            Some(balance) => {
                match balance.checked_add(amount) {
                    Some(sum) => {
                        self.accounts.insert(*to, sum);
                        Ok(())
                    },
                    None => Err(RideError::TransferFailed),
                }
            },
            None => Err(RideError::TransferFailed),
        }
    }

    /// A copy of the bank, to try a series of transfers on.
    pub fn duplicate(&self) -> (copy: Bank)
        ensures
            copy@ == self@,
    {
        Bank { accounts: self.accounts.duplicate() }
    }
}

} // verus!
