//! The ledger and the operations on it.
//!
//! A [`Ledger`] keeps the configuration record, the escrow record of each
//! ride, the wallets and the custody accounts. Each operation is one
//! transaction: it either takes effect as a whole or is rejected and leaves
//! the ledger exactly as it was. An operation takes the ledger by exclusive
//! reference, so the operations on one ledger happen one after another, and
//! two settlements of one ride can never both find it unsettled. What an
//! operation does is stated by the function of the same name on
//! [`LedgerView`].
//!
//! A ledger is always in a consistent state (see [`LedgerView::wf`]): there is
//! no way to build one in which a custody account holds anything but what its
//! ride has locked.

use vstd::prelude::*;
use crate::address::{
    derived_view,
    find_config_address,
    find_ride_address,
    find_vault_address,
    too_long,
    Address,
};
use crate::bank::Bank;
use crate::config::{Config, ConfigEntry};
use crate::context::{CompleteRide, InitializeConfig, InitializeRide, UpdateConfig};
use crate::error::RideError;
use crate::laws::{
    lemma_complete_ride_keeps_wf,
    lemma_create_config_keeps_wf,
    lemma_empty_is_wf,
    lemma_lock_ride_keeps_wf,
    lemma_open_account_keeps_wf,
    lemma_update_config_keeps_wf,
};
use crate::model::LedgerView;
use crate::ride::{RideAccount, RideEntry};
use crate::table::AddressMap;

verus! {

/// The state that the operations work on.
pub struct Ledger {
    program_id: Address,
    config: Option<ConfigEntry>,
    rides: AddressMap<RideEntry>,
    wallets: Bank,
    vaults: Bank,
}

impl View for Ledger {
    type V = LedgerView;

    closed spec fn view(&self) -> LedgerView {
        LedgerView {
            program_id: self.program_id,
            config: self.config,
            rides: self.rides@,
            wallets: self.wallets@,
            vaults: self.vaults@,
        }
    }
}

impl Ledger {
    /// The state is consistent.
    #[verifier::type_invariant]
    spec fn consistent(&self) -> bool {
        self@.wf()
    }

    /// A ledger on which nothing has happened yet.
    pub fn new(program_id: Address) -> (ledger: Ledger)
        ensures
            ledger@ == LedgerView::empty(program_id),
            ledger@.wf(),
    {
        let rides: AddressMap<RideEntry> = AddressMap::new();
        let wallets = Bank::new();
        let vaults = Bank::new();
        proof {
            lemma_empty_is_wf(program_id);
        }
        Ledger { program_id, config: None, rides, wallets, vaults }
    }

    /// The program under which the ledger derives the addresses of its records.
    pub fn program_id(&self) -> (program_id: Address)
        ensures
            program_id == self@.program_id,
    {
        self.program_id
    }

    /// The configuration record, once it is created.
    pub fn config(&self) -> (config: Option<Config>)
        ensures
            match config {
                Some(record) => self@.config is Some && self@.config->Some_0.record == record,
                None => self@.config is None,
            },
    {
        match self.config {
            Some(entry) => Some(entry.record),
            None => None,
        }
    }

    /// The address of the configuration record, once it is created.
    pub fn config_address(&self) -> (address: Option<Address>)
        ensures
            match address {
                Some(key) => self@.config is Some && self@.config->Some_0.address == key,
                None => self@.config is None,
            },
    {
        match self.config {
            Some(entry) => Some(entry.address),
            None => None,
        }
    }

    /// The escrow record at an address, if there is one. The ledger is, as
    /// always, in a consistent state.
    pub fn ride(&self, address: &Address) -> (ride: Option<&RideAccount>)
        ensures
            match ride {
                Some(record) => self@.rides.dom().contains(address@)
                    && self@.rides[address@].record == record@,
                None => !self@.rides.dom().contains(address@),
            },
            self@.wf(),
    {
        proof {
            use_type_invariant(self);
        }
        match self.rides.get(address) {
            Some(entry) => Some(&entry.record),
            None => None,
        }
    }

    /// The custody account of the ride whose escrow record lies at `address`:
    /// its address and the bump seed it was derived with. It holds exactly
    /// what the ride has locked.
    pub fn custody_of(&self, address: &Address) -> (custody: Option<(Address, u8)>)
        ensures
            match custody {
                Some((vault, bump)) => self@.rides.dom().contains(address@)
                    && self@.rides[address@].vault == vault && self@.rides[address@].bump == bump
                    && self@.balance(vault@) == Some(
                    self@.rides[address@].record.locked_amount() as u64,
                ),
                None => !self@.rides.dom().contains(address@),
            },
            self@.wf(),
    {
        proof {
            use_type_invariant(self);
        }
        match self.rides.get(address) {
            Some(entry) => Some((entry.vault, entry.bump)),
            None => None,
        }
    }

    /// The balance of an account, be it a wallet or a custody account. The
    /// ledger is, as always, in a consistent state.
    pub fn balance_of(&self, address: &Address) -> (balance: Option<u64>)
        ensures
            balance == self@.balance(address@),
            self@.wf(),
    {
        proof {
            use_type_invariant(self);
        }
        match self.wallets.balance_of(address) {
            Some(amount) => Some(amount),
            None => self.vaults.balance_of(address),
        }
    }

    /// Opens a wallet with a first balance. Rejected with `AlreadyExists` where
    /// the address is in use.
    pub fn open_account(&mut self, key: Address, amount: u64) -> (outcome: Result<(), RideError>)
        ensures
            final(self)@.wf(),
            match outcome {
                Ok(()) => old(self)@.open_account(key@, amount) == Ok::<LedgerView, RideError>(
                    final(self)@,
                ),
                Err(error) => old(self)@.open_account(key@, amount) == Err::<
                    LedgerView,
                    RideError,
                >(error) && final(self)@ == old(self)@,
            },
    {
        proof {
            use_type_invariant(&*self);
        }
        if self.vaults.has_account(&key) || self.wallets.has_account(&key) {
            return Err(RideError::AlreadyExists);
        }
        let mut wallets = Bank::new();
        std::mem::swap(&mut wallets, &mut self.wallets);
        let opened = wallets.open(key, amount);
        assert(opened is Ok);
        proof {
            lemma_open_account_keeps_wf(old(self)@, key@, amount);
        }
        self.wallets = wallets;
        Ok(())
    }
}

/// Creates the configuration record, with the caller as its admin, given what
/// the derivation returned for the record's address.
///
/// Rejected with `AlreadyExists` once a record exists, with
/// `MissingSignature` where the caller did not sign, and with `InvalidAccount`
/// where `ctx.config` is not the derived address or there is none.
pub fn create_config(
    ledger: &mut Ledger,
    ctx: InitializeConfig,
    company_wallet: Address,
    backend_authority: Address,
    derived: Option<(Address, u8)>,
) -> (outcome: Result<(), RideError>)
    ensures
        final(ledger)@.wf(),
        match outcome {
            Ok(()) => old(ledger)@.create_config(
                ctx,
                company_wallet,
                backend_authority,
                derived_view(derived),
            ) == Ok::<LedgerView, RideError>(final(ledger)@),
            Err(error) => old(ledger)@.create_config(
                ctx,
                company_wallet,
                backend_authority,
                derived_view(derived),
            ) == Err::<LedgerView, RideError>(error) && final(ledger)@ == old(ledger)@,
        },
{
    proof {
        use_type_invariant(&*ledger);
    }
    if ledger.config.is_some() {
        return Err(RideError::AlreadyExists);
    }
    if !ctx.admin.signed {
        return Err(RideError::MissingSignature);
    }
    match derived {
        Some((address, _)) => {
            proof {
                Address::lemma_view_injective(address, ctx.config);
            }
            if !(address == ctx.config) {
                return Err(RideError::InvalidAccount);
            }
        },
        None => {
            return Err(RideError::InvalidAccount);
        },
    }
    proof {
        lemma_create_config_keeps_wf(
            old(ledger)@,
            ctx,
            company_wallet,
            backend_authority,
            derived_view(derived),
        );
    }
    ledger.config = Some(
        ConfigEntry {
            address: ctx.config,
            record: Config::new(company_wallet, backend_authority, ctx.admin.key),
        },
    );
    Ok(())
}

/// Creates the configuration record at the address derived from the label
/// `config`, with the caller as its admin.
///
/// Rejected with `AlreadyExists` once a record exists, with
/// `MissingSignature` where the caller did not sign, and with `InvalidAccount`
/// where `ctx.config` is not the derived address.
pub fn initialize_config(
    ledger: &mut Ledger,
    ctx: InitializeConfig,
    company_wallet: Address,
    backend_authority: Address,
) -> (outcome: Result<(), RideError>)
    ensures
        final(ledger)@.wf(),
        match outcome {
            Ok(()) => old(ledger)@.initialize_config(ctx, company_wallet, backend_authority)
                == Ok::<LedgerView, RideError>(final(ledger)@),
            Err(error) => old(ledger)@.initialize_config(ctx, company_wallet, backend_authority)
                == Err::<LedgerView, RideError>(error) && final(ledger)@ == old(ledger)@,
        },
{
    let derived = find_config_address(&ledger.program_id);
    create_config(ledger, ctx, company_wallet, backend_authority, derived)
}

/// Changes the fee recipient, the backend authority, or both.
///
/// Rejected with `AccountNotInitialized` before the record exists, with
/// `Unauthorized` unless the caller is the admin, with `MissingSignature`
/// where the admin did not sign, and with `InvalidAccount` where `ctx.config`
/// is not the address of the record.
pub fn update_config(
    ledger: &mut Ledger,
    ctx: UpdateConfig,
    company_wallet: Option<Address>,
    backend_authority: Option<Address>,
) -> (outcome: Result<(), RideError>)
    ensures
        final(ledger)@.wf(),
        match outcome {
            Ok(()) => old(ledger)@.update_config(ctx, company_wallet, backend_authority) == Ok::<
                LedgerView,
                RideError,
            >(final(ledger)@),
            Err(error) => old(ledger)@.update_config(ctx, company_wallet, backend_authority)
                == Err::<LedgerView, RideError>(error) && final(ledger)@ == old(ledger)@,
        },
{
    proof {
        use_type_invariant(&*ledger);
    }
    let entry = match ledger.config {
        Some(entry) => entry,
        None => {
            return Err(RideError::AccountNotInitialized);
        },
    };
    let mut record = entry.record;
    match record.authorize_admin(&ctx.admin) {
        Err(error) => {
            return Err(error);
        },
        Ok(()) => {},
    }
    if !(ctx.config == entry.address) {
        return Err(RideError::InvalidAccount);
    }
    let updated = record.update(&ctx.admin, company_wallet, backend_authority);
    assert(updated is Ok);
    proof {
        lemma_update_config_keeps_wf(old(ledger)@, ctx, company_wallet, backend_authority);
    }
    ledger.config = Some(ConfigEntry { address: entry.address, record });
    Ok(())
}

/// Locks the funds of a ride, given what the derivation returned for the
/// addresses of the escrow record and of the custody account: creates both
/// and moves `amount` from the passenger's wallet into custody.
///
/// Rejected with `DuplicateRide` where a derived address is taken, with
/// `MissingSignature` where the passenger did not sign, with `InvalidAccount`
/// where `ctx.ride_account` or `ctx.vault` is not the derived address or there
/// is none, and with `InsufficientFunds` where the passenger's wallet does not
/// hold the amount.
pub fn lock_ride(
    ledger: &mut Ledger,
    ctx: InitializeRide,
    ride_id: String,
    amount: u64,
    record: Option<(Address, u8)>,
    vault: Option<(Address, u8)>,
) -> (outcome: Result<(), RideError>)
    ensures
        final(ledger)@.wf(),
        match outcome {
            Ok(()) => old(ledger)@.lock_ride(
                ctx,
                ride_id@,
                amount,
                derived_view(record),
                derived_view(vault),
            ) == Ok::<LedgerView, RideError>(final(ledger)@),
            Err(error) => old(ledger)@.lock_ride(
                ctx,
                ride_id@,
                amount,
                derived_view(record),
                derived_view(vault),
            ) == Err::<LedgerView, RideError>(error) && final(ledger)@ == old(ledger)@,
        },
{
    proof {
        use_type_invariant(&*ledger);
    }
    if let Some((record_key, _)) = record {
        if ledger.rides.contains_key(&record_key) {
            return Err(RideError::DuplicateRide);
        }
    }
    if let Some((vault_key, _)) = vault {
        if ledger.vaults.has_account(&vault_key) || ledger.wallets.has_account(&vault_key) {
            return Err(RideError::DuplicateRide);
        }
    }
    if !ctx.passenger.signed {
        return Err(RideError::MissingSignature);
    }
    let (record_key, vault_key, bump) = match (record, vault) {
        (Some((record_key, _)), Some((vault_key, bump))) => (record_key, vault_key, bump),
        _ => {
            return Err(RideError::InvalidAccount);
        },
    };
    proof {
        Address::lemma_view_injective(record_key, ctx.ride_account);
        Address::lemma_view_injective(vault_key, ctx.vault);
    }
    if !(record_key == ctx.ride_account) || !(vault_key == ctx.vault) {
        return Err(RideError::InvalidAccount);
    }
    match ledger.wallets.balance_of(&ctx.passenger.key) {
        Some(balance) => {
            if balance < amount {
                return Err(RideError::InsufficientFunds);
            }
        },
        None => {
            return Err(RideError::InsufficientFunds);
        },
    }
    // From here on nothing can fail. The rides are set aside while the two
    // banks change, so that no ride is ever seen without its funds.
    let mut rides: AddressMap<RideEntry> = AddressMap::new();
    std::mem::swap(&mut rides, &mut ledger.rides);
    let mut wallets = Bank::new();
    std::mem::swap(&mut wallets, &mut ledger.wallets);
    let taken = wallets.debit(&ctx.passenger.key, amount);
    assert(taken is Ok);
    ledger.wallets = wallets;
    let mut vaults = Bank::new();
    std::mem::swap(&mut vaults, &mut ledger.vaults);
    let opened = vaults.open(ctx.vault, amount);
    assert(opened is Ok);
    ledger.vaults = vaults;
    rides.insert(
        ctx.ride_account,
        RideEntry {
            record: RideAccount::new(ctx.passenger.key, ctx.driver, amount, ride_id),
            vault: ctx.vault,
            bump,
        },
    );
    proof {
        lemma_lock_ride_keeps_wf(
            old(ledger)@,
            ctx,
            ride_id@,
            amount,
            derived_view(record),
            derived_view(vault),
        );
    }
    ledger.rides = rides;
    Ok(())
}

/// Locks the funds of a ride at the addresses derived from the ride
/// identifier: creates the escrow record and the custody account and moves
/// `amount` from the passenger's wallet into custody.
///
/// Rejected with `DuplicateRide` where the ride identifier is taken, with
/// `MissingSignature` where the passenger did not sign, with `InvalidAccount`
/// where `ctx.ride_account` or `ctx.vault` is not the derived address, and
/// with `InsufficientFunds` where the passenger's wallet does not hold the
/// amount. An identifier that is too long to derive an address from is always
/// rejected.
pub fn initialize_ride(ledger: &mut Ledger, ctx: InitializeRide, ride_id: String, amount: u64) -> (outcome:
    Result<(), RideError>)
    ensures
        final(ledger)@.wf(),
        match outcome {
            Ok(()) => old(ledger)@.initialize_ride(ctx, ride_id@, amount) == Ok::<
                LedgerView,
                RideError,
            >(final(ledger)@),
            Err(error) => old(ledger)@.initialize_ride(ctx, ride_id@, amount) == Err::<
                LedgerView,
                RideError,
            >(error) && final(ledger)@ == old(ledger)@,
        },
        too_long(ride_id@) && ctx.passenger.signed ==> outcome == Err::<(), RideError>(
            RideError::InvalidAccount,
        ),
        too_long(ride_id@) && !ctx.passenger.signed ==> outcome == Err::<(), RideError>(
            RideError::MissingSignature,
        ),
{
    let record = find_ride_address(ride_id.as_str(), &ledger.program_id);
    let vault = find_vault_address(ride_id.as_str(), &ledger.program_id);
    lock_ride(ledger, ctx, ride_id, amount, record, vault)
}

/// Settles a ride: pays the platform's fee and the driver's share out of
/// custody and marks the ride completed.
///
/// Rejected with `AccountNotInitialized` before the configuration record or
/// the ride's escrow record exists, with `Unauthorized` unless the caller is
/// the backend authority, with `MissingSignature` where the backend authority
/// did not sign, with `RideAlreadyCompleted` once the ride is settled, with
/// `InvalidAccount` where a named account is not the one that the records
/// call for, and with `TransferFailed` where a payment cannot be made. It is
/// never rejected for want of funds in custody.
pub fn complete_ride(ledger: &mut Ledger, ctx: CompleteRide) -> (outcome: Result<(), RideError>)
    ensures
        final(ledger)@.wf(),
        match outcome {
            Ok(()) => old(ledger)@.complete_ride(ctx) == Ok::<LedgerView, RideError>(
                final(ledger)@,
            ),
            Err(error) => old(ledger)@.complete_ride(ctx) == Err::<LedgerView, RideError>(error)
                && final(ledger)@ == old(ledger)@,
        },
        outcome != Err::<(), RideError>(RideError::InsufficientFunds),
{
    proof {
        use_type_invariant(&*ledger);
    }
    let config = match ledger.config {
        Some(config) => config,
        None => {
            return Err(RideError::AccountNotInitialized);
        },
    };
    match config.record.authorize_backend(&ctx.authority) {
        Err(error) => {
            return Err(error);
        },
        Ok(()) => {},
    }
    let ride = match ledger.rides.get(&ctx.ride_account) {
        Some(ride) => ride,
        None => {
            return Err(RideError::AccountNotInitialized);
        },
    };
    let settlement = match ride.record.settlement() {
        Ok(settlement) => settlement,
        Err(error) => {
            return Err(error);
        },
    };
    if !(ctx.config == config.address) || !(ctx.vault == ride.vault) || !(ctx.passenger
        == ride.record.passenger) || !(ctx.driver == ride.record.driver) || !(ctx.company_wallet
        == config.record.company_wallet) {
        return Err(RideError::InvalidAccount);
    }
    let mut record = ride.record.clone();
    let completed = record.complete();
    assert(completed is Ok);
    let settled = RideEntry { record, vault: ride.vault, bump: ride.bump };
    proof {
        assert(old(ledger)@.holds_locked_funds(old(ledger)@.rides[ctx.ride_account@]));
    }
    // The payments are tried on a copy of the wallets: if either cannot be
    // made, the ledger has not been touched.
    let mut wallets = ledger.wallets.duplicate();
    match wallets.credit(&ctx.company_wallet, settlement.company_fee) {
        Err(error) => {
            return Err(error);
        },
        Ok(()) => {},
    }
    match wallets.credit(&ctx.driver, settlement.driver_amount) {
        Err(error) => {
            return Err(error);
        },
        Ok(()) => {},
    }
    // From here on nothing can fail. The rides are set aside while the two
    // banks change, so that no ride is ever seen without its funds.
    let mut rides: AddressMap<RideEntry> = AddressMap::new();
    std::mem::swap(&mut rides, &mut ledger.rides);
    ledger.wallets = wallets;
    let mut vaults = Bank::new();
    std::mem::swap(&mut vaults, &mut ledger.vaults);
    let released = vaults.debit(&ctx.vault, settled.record.amount);
    assert(released is Ok);
    ledger.vaults = vaults;
    rides.insert(ctx.ride_account, settled);
    proof {
        lemma_complete_ride_keeps_wf(old(ledger)@, ctx);
    }
    ledger.rides = rides;
    Ok(())
}

} // verus!
