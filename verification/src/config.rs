//! The configuration record: who receives the fee, who may settle rides and
//! who may change these settings.

use vstd::prelude::*;
use crate::address::Address;
use crate::context::Caller;
use crate::error::RideError;

verus! {

/// The settings of one deployment. There is one such record; its admin is the
/// identity that created it.
#[derive(Clone, Copy, Debug, PartialEq, Eq)]
pub struct Config {
    /// Receives the platform's fee.
    pub company_wallet: Address,
    /// May settle rides.
    pub backend_authority: Address,
    /// May change this record.
    pub admin: Address,
}

/// The configuration record as the ledger keeps it: the record and the
/// address at which it was created.
#[derive(Clone, Copy, Debug, PartialEq, Eq)]
pub struct ConfigEntry {
    /// The address of the record.
    pub address: Address,
    /// The record.
    pub record: Config,
}

impl Config {
    /// The record as it is first created: the creator becomes the admin.
    pub fn new(company_wallet: Address, backend_authority: Address, admin: Address) -> (config:
        Config)
        ensures
            config == (Config { company_wallet, backend_authority, admin }),
    {
        Config { company_wallet, backend_authority, admin }
    }

    /// The record after an update: a field that is given replaces the stored
    /// one, a field that is absent leaves it as it is. The admin never changes.
    pub open spec fn updated(
        self,
        company_wallet: Option<Address>,
        backend_authority: Option<Address>,
    ) -> Config {
        Config {
            company_wallet: match company_wallet {
                Some(wallet) => wallet,
                None => self.company_wallet,
            },
            backend_authority: match backend_authority {
                Some(authority) => authority,
                None => self.backend_authority,
            },
            admin: self.admin,
        }
    }

    /// What a caller is told who asks for something that is reserved for
    /// `holder`: anyone else is not authorized, and the holder must have signed.
    pub open spec fn verdict_for(holder: Address, caller: Caller) -> Result<(), RideError> {
        if caller.key != holder {
            Err(RideError::Unauthorized)
        } else if !caller.signed {
            Err(RideError::MissingSignature)
        } else {
            Ok(())
        }
    }

    /// Accepts the caller only if it is the admin and has signed.
    pub fn authorize_admin(&self, caller: &Caller) -> (verdict: Result<(), RideError>)
        ensures
            verdict == Self::verdict_for(self.admin, *caller),
    {
        if !(caller.key == self.admin) {
            Err(RideError::Unauthorized)
        } else if !caller.signed {
            Err(RideError::MissingSignature)
        } else {
            Ok(())
        }
    }

    /// Accepts the caller only if it is the backend authority and has signed.
    pub fn authorize_backend(&self, caller: &Caller) -> (verdict: Result<(), RideError>)
        ensures
            verdict == Self::verdict_for(self.backend_authority, *caller),
    {
        if !(caller.key == self.backend_authority) {
            Err(RideError::Unauthorized)
        } else if !caller.signed {
            Err(RideError::MissingSignature)
        } else {
            Ok(())
        }
    }

    /// Changes the fee recipient, the backend authority, or both, on behalf of
    /// `caller`. Anyone but the admin is turned away, and so is the admin
    /// without a signature; the record then stays as it was.
    pub fn update(
        &mut self,
        caller: &Caller,
        company_wallet: Option<Address>,
        backend_authority: Option<Address>,
    ) -> (outcome: Result<(), RideError>)
        ensures
            outcome == Self::verdict_for(old(self).admin, *caller),
            outcome is Ok ==> *final(self) == old(self).updated(company_wallet, backend_authority),
            outcome is Err ==> *final(self) == *old(self),
    {
        match self.authorize_admin(caller) {
            Err(error) => {
                return Err(error);
            },
            Ok(()) => {},
        }
        if let Some(new_company_wallet) = company_wallet {
            self.company_wallet = new_company_wallet;
        }
        if let Some(new_backend_authority) = backend_authority {
            self.backend_authority = new_backend_authority;
        }
        Ok(())
    }
}

} // verus!
