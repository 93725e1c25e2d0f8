//! The ways in which an operation on the escrow can be rejected.

use vstd::prelude::*;

verus! {

/// Why an operation was rejected. A rejected operation changes nothing.
#[derive(Clone, Copy, Debug, PartialEq, Eq, Structural, Hash)]
pub enum RideError {
    /// Settlement was attempted on a ride that is already settled.
    RideAlreadyCompleted,
    /// The caller is not the identity the operation is reserved for.
    Unauthorized,
    /// The configuration record was created before.
    AlreadyExists,
    /// The ride identifier, or the custody account that belongs to it, is
    /// already in use.
    DuplicateRide,
    /// The source of a transfer does not hold the amount.
    InsufficientFunds,
    /// The destination of a transfer cannot take the amount: it does not
    /// exist, or its balance would no longer fit.
    TransferFailed,
    /// A supplied account is not the one that the records call for.
    InvalidAccount,
    /// A record that the operation reads was never created.
    AccountNotInitialized,
    /// The identity on whose behalf the operation runs did not sign it.
    MissingSignature,
}

impl RideError {
    /// The text of [`RideError::message`].
    pub open spec fn message_text(self) -> Seq<char> {
        match self {
            RideError::RideAlreadyCompleted => "Ride has already been completed"@,
            RideError::Unauthorized => "Unauthorized authority"@,
            RideError::AlreadyExists => "Config has already been initialized"@,
            RideError::DuplicateRide => "Ride has already been initialized"@,
            RideError::InsufficientFunds => "Insufficient funds"@,
            RideError::TransferFailed => "Transfer failed"@,
            RideError::InvalidAccount => "Invalid account"@,
            RideError::AccountNotInitialized => "Account has not been initialized"@,
            RideError::MissingSignature => "Signature is missing"@,
        }
    }

    /// A sentence for the person who reads the error.
    pub fn message(&self) -> (text: String)
        ensures
            text@ == self.message_text(),
    {
        match self {
            RideError::RideAlreadyCompleted => "Ride has already been completed".to_owned(),
            RideError::Unauthorized => "Unauthorized authority".to_owned(),
            RideError::AlreadyExists => "Config has already been initialized".to_owned(),
            RideError::DuplicateRide => "Ride has already been initialized".to_owned(),
            RideError::InsufficientFunds => "Insufficient funds".to_owned(),
            RideError::TransferFailed => "Transfer failed".to_owned(),
            RideError::InvalidAccount => "Invalid account".to_owned(),
            RideError::AccountNotInitialized => "Account has not been initialized".to_owned(),
            RideError::MissingSignature => "Signature is missing".to_owned(),
        }
    }
}

} // verus!
