//! The escrow as a state machine.
//!
//! A [`LedgerView`] is everything the ledger holds: the configuration record,
//! the escrow record of each ride, the wallets of the participants and the
//! custody account of each ride. Each operation is a function from the state
//! before to the state after, or to the reason for which it is rejected; a
//! rejected operation leaves the state as it is.
//!
//! Two operations create records at derived addresses. Each comes in two
//! forms: one that is given what the derivation returned, and one that speaks
//! of the derivation itself.

use vstd::prelude::*;
use crate::address::{
    config_seeds,
    program_address,
    ride_seeds,
    vault_seeds,
    Address,
    Derived,
};
use crate::bank::{credited, debited, total};
use crate::config::{Config, ConfigEntry};
use crate::context::{CompleteRide, InitializeConfig, InitializeRide, UpdateConfig};
use crate::error::RideError;
use crate::fee::Settlement;
use crate::ride::{RideEntryView, RideView};

verus! {

/// What a ledger holds.
pub ghost struct LedgerView {
    /// The program under which the addresses of records are derived.
    pub program_id: Address,
    /// The configuration record, once it is created.
    pub config: Option<ConfigEntry>,
    /// The rides, by the address of their escrow record.
    pub rides: Map<Seq<u8>, RideEntryView>,
    /// The balances of the participants' wallets, by address.
    pub wallets: Map<Seq<u8>, u64>,
    /// The balances of the custody accounts, by address.
    pub vaults: Map<Seq<u8>, u64>,
}

impl LedgerView {
    /// The balance of an account, be it a wallet or a custody account.
    pub open spec fn balance(self, key: Seq<u8>) -> Option<u64> {
        if self.wallets.dom().contains(key) {
            Some(self.wallets[key])
        } else if self.vaults.dom().contains(key) {
            Some(self.vaults[key])
        } else {
            None
        }
    }

    /// The custody account of the ride exists and holds exactly what the ride
    /// has locked: the amount until settlement, nothing after.
    pub open spec fn holds_locked_funds(self, ride: RideEntryView) -> bool {
        self.vaults.dom().contains(ride.vault@) && self.vaults[ride.vault@]
            == ride.record.locked_amount()
    }

    /// Everything that the ledger holds: what is in the wallets and what is in
    /// custody.
    pub open spec fn funds(self) -> nat {
        total(self.wallets) + total(self.vaults)
    }

    /// The state is consistent:
    /// - there are finitely many accounts;
    /// - the custody account of every ride holds exactly what the ride has
    ///   locked;
    /// - no two rides share a custody account;
    /// - no address is both a wallet and a custody account.
    pub open spec fn wf(self) -> bool {
        &&& self.wallets.dom().finite()
        &&& self.vaults.dom().finite()
        &&& forall|key: Seq<u8>| #[trigger]
            self.rides.dom().contains(key) ==> self.holds_locked_funds(self.rides[key])
        &&& forall|first: Seq<u8>, second: Seq<u8>|
            #![trigger self.rides.dom().contains(first), self.rides.dom().contains(second)]
            self.rides.dom().contains(first) && self.rides.dom().contains(second) && first
                != second ==> self.rides[first].vault != self.rides[second].vault
        &&& forall|key: Seq<u8>| #[trigger]
            self.vaults.dom().contains(key) ==> !self.wallets.dom().contains(key)
    }

    /// A ledger on which nothing has happened yet.
    pub open spec fn empty(program_id: Address) -> LedgerView {
        LedgerView {
            program_id,
            config: None,
            rides: Map::empty(),
            wallets: Map::empty(),
            vaults: Map::empty(),
        }
    }

    /// Opening a wallet with a first balance: rejected where the address is in
    /// use, as a wallet or as a custody account.
    pub open spec fn open_account(self, key: Seq<u8>, amount: u64) -> Result<
        LedgerView,
        RideError,
    > {
        if self.wallets.dom().contains(key) || self.vaults.dom().contains(key) {
            Err(RideError::AlreadyExists)
        } else {
            Ok(LedgerView { wallets: self.wallets.insert(key, amount), ..self })
        }
    }

    /// Creating the configuration record, given what the derivation returned
    /// for it: rejected once a record exists, where the caller did not sign,
    /// and where the record is not put at the derived address. The caller
    /// becomes the admin.
    pub open spec fn create_config(
        self,
        ctx: InitializeConfig,
        company_wallet: Address,
        backend_authority: Address,
        derived: Derived,
    ) -> Result<LedgerView, RideError> {
        if self.config is Some {
            Err(RideError::AlreadyExists)
        } else if !ctx.admin.signed {
            Err(RideError::MissingSignature)
        } else if !(derived matches Some((key, _)) && key == ctx.config@) {
            Err(RideError::InvalidAccount)
        } else {
            Ok(
                LedgerView {
                    config: Some(
                        ConfigEntry {
                            address: ctx.config,
                            record: Config {
                                company_wallet,
                                backend_authority,
                                admin: ctx.admin.key,
                            },
                        },
                    ),
                    ..self
                },
            )
        }
    }

    /// Creating the configuration record at the address derived from the label
    /// `config`.
    pub open spec fn initialize_config(
        self,
        ctx: InitializeConfig,
        company_wallet: Address,
        backend_authority: Address,
    ) -> Result<LedgerView, RideError> {
        self.create_config(
            ctx,
            company_wallet,
            backend_authority,
            program_address(config_seeds(), self.program_id@),
        )
    }

    /// Changing the configuration record: reserved for the admin. A field that
    /// is given replaces the stored one, an absent one leaves it. Rejected
    /// before the record exists, for any caller but the admin, for the admin
    /// without a signature, and where the account named is not the record.
    pub open spec fn update_config(
        self,
        ctx: UpdateConfig,
        company_wallet: Option<Address>,
        backend_authority: Option<Address>,
    ) -> Result<LedgerView, RideError> {
        match self.config {
            None => Err(RideError::AccountNotInitialized),
            Some(config) => {
                if ctx.admin.key != config.record.admin {
                    Err(RideError::Unauthorized)
                } else if !ctx.admin.signed {
                    Err(RideError::MissingSignature)
                } else if ctx.config != config.address {
                    Err(RideError::InvalidAccount)
                } else {
                    Ok(
                        LedgerView {
                            config: Some(
                                ConfigEntry {
                                    record: config.record.updated(
                                        company_wallet,
                                        backend_authority,
                                    ),
                                    ..config
                                },
                            ),
                            ..self
                        },
                    )
                }
            },
        }
    }

    /// Whether the addresses derived for a ride are taken: the escrow record
    /// exists, or the address of the custody account is in use.
    pub open spec fn ride_in_use(self, record: Derived, vault: Derived) -> bool {
        ||| record matches Some((key, _)) && self.rides.dom().contains(key)
        ||| vault matches Some((key, _)) && (self.vaults.dom().contains(key)
            || self.wallets.dom().contains(key))
    }

    /// Locking the funds of a ride, given what the derivation returned for the
    /// escrow record and for the custody account: both are created, and the
    /// amount moves from the passenger's wallet into custody, all at once.
    /// Rejected where the derived addresses are taken, where the passenger did
    /// not sign, where the two accounts are not put at the derived addresses,
    /// and where the passenger's wallet does not hold the amount.
    pub open spec fn lock_ride(
        self,
        ctx: InitializeRide,
        ride_id: Seq<char>,
        amount: u64,
        record: Derived,
        vault: Derived,
    ) -> Result<LedgerView, RideError> {
        if self.ride_in_use(record, vault) {
            Err(RideError::DuplicateRide)
        } else if !ctx.passenger.signed {
            Err(RideError::MissingSignature)
        } else if !(record matches Some((key, _)) && key == ctx.ride_account@) || !(
        vault matches Some((key, _)) && key == ctx.vault@) {
            Err(RideError::InvalidAccount)
        } else {
            match debited(self.wallets, ctx.passenger.key@, amount) {
                Err(error) => Err(error),
                Ok(wallets) => Ok(
                    LedgerView {
                        rides: self.rides.insert(
                            ctx.ride_account@,
                            RideEntryView {
                                record: RideView {
                                    passenger: ctx.passenger.key,
                                    driver: ctx.driver,
                                    amount,
                                    ride_id,
                                    completed: false,
                                },
                                vault: ctx.vault,
                                bump: vault->Some_0.1,
                            },
                        ),
                        wallets,
                        vaults: self.vaults.insert(ctx.vault@, amount),
                        ..self
                    },
                ),
            }
        }
    }

    /// Locking the funds of a ride at the addresses derived from the ride
    /// identifier: the escrow record under the label `ride`, the custody
    /// account under the label `vault`.
    pub open spec fn initialize_ride(
        self,
        ctx: InitializeRide,
        ride_id: Seq<char>,
        amount: u64,
    ) -> Result<LedgerView, RideError> {
        self.lock_ride(
            ctx,
            ride_id,
            amount,
            program_address(ride_seeds(ride_id), self.program_id@),
            program_address(vault_seeds(ride_id), self.program_id@),
        )
    }

    /// Whether the accounts named for a settlement are those that the records
    /// call for: the configuration record, the custody account of the ride, the
    /// passenger and the driver of the ride, and the platform's wallet of the
    /// configuration.
    pub open spec fn settlement_accounts_match(
        ctx: CompleteRide,
        config: ConfigEntry,
        ride: RideEntryView,
    ) -> bool {
        &&& ctx.config == config.address
        &&& ctx.vault == ride.vault
        &&& ctx.passenger == ride.record.passenger
        &&& ctx.driver == ride.record.driver
        &&& ctx.company_wallet == config.record.company_wallet
    }

    /// Settling a ride: reserved for the backend authority, and possible once.
    /// The locked amount leaves custody; the fee goes to the platform's wallet
    /// first, the rest to the driver's wallet second; the record is marked
    /// completed. If either payment cannot be made, nothing happens.
    ///
    /// Rejected, in this order: before the configuration record exists; for
    /// any caller but the backend authority; for the backend authority without
    /// a signature; where the ride has no escrow record; where the ride is
    /// completed; where a named account is not the one that the records call
    /// for; where a payment cannot be made.
    pub open spec fn complete_ride(self, ctx: CompleteRide) -> Result<LedgerView, RideError> {
        match self.config {
            None => Err(RideError::AccountNotInitialized),
            Some(config) => {
                if ctx.authority.key != config.record.backend_authority {
                    Err(RideError::Unauthorized)
                } else if !ctx.authority.signed {
                    Err(RideError::MissingSignature)
                } else if !self.rides.dom().contains(ctx.ride_account@) {
                    Err(RideError::AccountNotInitialized)
                } else {
                    let ride = self.rides[ctx.ride_account@];
                    if ride.record.completed {
                        Err(RideError::RideAlreadyCompleted)
                    } else if !Self::settlement_accounts_match(ctx, config, ride) {
                        Err(RideError::InvalidAccount)
                    } else {
                        self.pay_out(ctx, ride)
                    }
                }
            },
        }
    }

    /// The payments of a settlement whose accounts have been checked.
    pub open spec fn pay_out(self, ctx: CompleteRide, ride: RideEntryView) -> Result<
        LedgerView,
        RideError,
    > {
        let settlement = Settlement::of(ride.record.amount);
        match debited(self.vaults, ctx.vault@, ride.record.amount) {
            Err(error) => Err(error),
            Ok(vaults) => match credited(
                self.wallets,
                ctx.company_wallet@,
                settlement.company_fee,
            ) {
                Err(error) => Err(error),
                Ok(fee_paid) => match credited(fee_paid, ctx.driver@, settlement.driver_amount) {
                    Err(error) => Err(error),
                    Ok(wallets) => Ok(
                        LedgerView {
                            rides: self.rides.insert(ctx.ride_account@, ride.settled()),
                            wallets,
                            vaults,
                            ..self
                        },
                    ),
                },
            },
        }
    }

    /// Whether one operation that takes effect leads from this state to
    /// `post`.
    pub open spec fn steps_to(self, post: LedgerView) -> bool {
        ||| exists|key: Seq<u8>, amount: u64|
            self.open_account(key, amount) == Ok::<LedgerView, RideError>(post)
        ||| exists|
            ctx: InitializeConfig,
            company_wallet: Address,
            backend_authority: Address,
            derived: Derived,
        |
            self.create_config(ctx, company_wallet, backend_authority, derived) == Ok::<
                LedgerView,
                RideError,
            >(post)
        ||| exists|
            ctx: UpdateConfig,
            company_wallet: Option<Address>,
            backend_authority: Option<Address>,
        |
            self.update_config(ctx, company_wallet, backend_authority) == Ok::<
                LedgerView,
                RideError,
            >(post)
        ||| exists|
            ctx: InitializeRide,
            ride_id: Seq<char>,
            amount: u64,
            record: Derived,
            vault: Derived,
        |
            self.lock_ride(ctx, ride_id, amount, record, vault) == Ok::<LedgerView, RideError>(
                post,
            )
        ||| exists|ctx: CompleteRide| self.complete_ride(ctx) == Ok::<LedgerView, RideError>(post)
    }

    /// Whether one operation that takes effect leads from this state to
    /// `post`, the records being created at the addresses that the derivation
    /// gives.
    pub open spec fn advances_to(self, post: LedgerView) -> bool {
        ||| exists|key: Seq<u8>, amount: u64|
            self.open_account(key, amount) == Ok::<LedgerView, RideError>(post)
        ||| exists|ctx: InitializeConfig, company_wallet: Address, backend_authority: Address|
            self.initialize_config(ctx, company_wallet, backend_authority) == Ok::<
                LedgerView,
                RideError,
            >(post)
        ||| exists|
            ctx: UpdateConfig,
            company_wallet: Option<Address>,
            backend_authority: Option<Address>,
        |
            self.update_config(ctx, company_wallet, backend_authority) == Ok::<
                LedgerView,
                RideError,
            >(post)
        ||| exists|ctx: InitializeRide, ride_id: Seq<char>, amount: u64|
            self.initialize_ride(ctx, ride_id, amount) == Ok::<LedgerView, RideError>(post)
        ||| exists|ctx: CompleteRide| self.complete_ride(ctx) == Ok::<LedgerView, RideError>(post)
    }

    /// Every record lies where the derivation puts it: the configuration
    /// record at the address derived from its label, the escrow record of each
    /// ride and its custody account at the addresses derived from the ride
    /// identifier, the custody account with the bump that the derivation
    /// settled on.
    pub open spec fn lies_at_derived_addresses(self) -> bool {
        &&& self.config matches Some(config) ==> program_address(
            config_seeds(),
            self.program_id@,
        ) matches Some((key, _)) && key == config.address@
        &&& forall|key: Seq<u8>| #[trigger]
            self.rides.dom().contains(key) ==> {
                let ride = self.rides[key];
                &&& program_address(
                    ride_seeds(ride.record.ride_id),
                    self.program_id@,
                ) matches Some((derived, _)) && derived == key
                &&& program_address(vault_seeds(ride.record.ride_id), self.program_id@) == Some(
                    (ride.vault@, ride.bump),
                )
            }
    }
}

} // verus!
