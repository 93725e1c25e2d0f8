use ride_payment::address::{find_config_address, find_ride_address, find_vault_address, Address};
use ride_payment::config::Config;
use ride_payment::context::{
    Caller, CompleteRide, InitializeConfig, InitializeRide, UpdateConfig,
};
use ride_payment::error::RideError;
use ride_payment::ledger::{
    complete_ride, create_config, initialize_config, initialize_ride, lock_ride, update_config,
    Ledger,
};

fn key(tag: u8) -> Address {
    Address::new([tag; 32])
}

const PROGRAM: u8 = 9;
const ADMIN: u8 = 1;
const COMPANY: u8 = 2;
const BACKEND: u8 = 3;
const PASSENGER: u8 = 4;
const DRIVER: u8 = 5;
const STRANGER: u8 = 6;

fn signer(tag: u8) -> Caller {
    Caller::signer(key(tag))
}

fn config_address() -> Address {
    find_config_address(&key(PROGRAM)).unwrap().0
}

fn ride_address(ride_id: &str) -> Address {
    find_ride_address(ride_id, &key(PROGRAM)).unwrap().0
}

fn vault_address(ride_id: &str) -> Address {
    find_vault_address(ride_id, &key(PROGRAM)).unwrap().0
}

fn lock_of(ride_id: &str) -> InitializeRide {
    InitializeRide {
        ride_account: ride_address(ride_id),
        vault: vault_address(ride_id),
        passenger: signer(PASSENGER),
        driver: key(DRIVER),
    }
}

fn settle_of(ride_id: &str) -> CompleteRide {
    CompleteRide {
        ride_account: ride_address(ride_id),
        vault: vault_address(ride_id),
        config: config_address(),
        passenger: key(PASSENGER),
        driver: key(DRIVER),
        company_wallet: key(COMPANY),
        authority: signer(BACKEND),
    }
}

/// Wallets for everyone, the passenger's with the given balance.
fn funded(passenger_balance: u64) -> Ledger {
    let mut ledger = Ledger::new(key(PROGRAM));
    assert_eq!(ledger.open_account(key(COMPANY), 0), Ok(()));
    assert_eq!(ledger.open_account(key(DRIVER), 0), Ok(()));
    assert_eq!(ledger.open_account(key(PASSENGER), passenger_balance), Ok(()));
    ledger
}

fn configured(passenger_balance: u64) -> Ledger {
    let mut ledger = funded(passenger_balance);
    let ctx = InitializeConfig { config: config_address(), admin: signer(ADMIN) };
    assert_eq!(initialize_config(&mut ledger, ctx, key(COMPANY), key(BACKEND)), Ok(()));
    ledger
}

fn locked(ride_id: &str, amount: u64, passenger_balance: u64) -> Ledger {
    let mut ledger = configured(passenger_balance);
    assert_eq!(initialize_ride(&mut ledger, lock_of(ride_id), ride_id.to_string(), amount), Ok(()));
    ledger
}

/// All that can be observed of the accounts used in these tests.
fn snapshot(ledger: &Ledger) -> Vec<Option<u64>> {
    let mut seen = Vec::new();
    for tag in [ADMIN, COMPANY, BACKEND, PASSENGER, DRIVER, STRANGER] {
        seen.push(ledger.balance_of(&key(tag)));
    }
    for ride_id in ["ride-1", "ride-2"] {
        seen.push(ledger.balance_of(&vault_address(ride_id)));
        seen.push(ledger.ride(&ride_address(ride_id)).map(|ride| ride.amount));
        seen.push(ledger.ride(&ride_address(ride_id)).map(|ride| ride.completed as u64));
    }
    seen
}

#[test]
fn new_ledger_is_empty() {
    let ledger = Ledger::new(key(PROGRAM));
    assert_eq!(ledger.program_id(), key(PROGRAM));
    assert_eq!(ledger.config(), None);
    assert_eq!(ledger.config_address(), None);
    assert_eq!(ledger.ride(&ride_address("ride-1")), None);
    assert_eq!(ledger.custody_of(&ride_address("ride-1")), None);
    assert_eq!(ledger.balance_of(&key(PASSENGER)), None);
}

#[test]
fn open_account_sets_the_balance() {
    let mut ledger = Ledger::new(key(PROGRAM));
    assert_eq!(ledger.open_account(key(PASSENGER), 1500), Ok(()));
    assert_eq!(ledger.balance_of(&key(PASSENGER)), Some(1500));
}

#[test]
fn open_account_twice_is_rejected() {
    let mut ledger = Ledger::new(key(PROGRAM));
    assert_eq!(ledger.open_account(key(PASSENGER), 1500), Ok(()));
    assert_eq!(ledger.open_account(key(PASSENGER), 1), Err(RideError::AlreadyExists));
    assert_eq!(ledger.balance_of(&key(PASSENGER)), Some(1500));
}

#[test]
fn open_account_at_a_custody_address_is_rejected() {
    let mut ledger = locked("ride-1", 1000, 1500);
    assert_eq!(ledger.open_account(vault_address("ride-1"), 7), Err(RideError::AlreadyExists));
    assert_eq!(ledger.balance_of(&vault_address("ride-1")), Some(1000));
}

#[test]
fn initialize_config_creates_the_record() {
    let ledger = configured(0);
    assert_eq!(
        ledger.config(),
        Some(Config {
            company_wallet: key(COMPANY),
            backend_authority: key(BACKEND),
            admin: key(ADMIN),
        })
    );
    assert_eq!(ledger.config_address(), Some(config_address()));
}

#[test]
fn initialize_config_twice_fails_with_already_exists() {
    let mut ledger = configured(0);
    let before = ledger.config();
    let ctx = InitializeConfig { config: config_address(), admin: signer(ADMIN) };
    assert_eq!(
        initialize_config(&mut ledger, ctx, key(COMPANY), key(BACKEND)),
        Err(RideError::AlreadyExists)
    );
    let other = InitializeConfig { config: config_address(), admin: signer(STRANGER) };
    assert_eq!(
        initialize_config(&mut ledger, other, key(STRANGER), key(STRANGER)),
        Err(RideError::AlreadyExists)
    );
    assert_eq!(ledger.config(), before);
}

#[test]
fn initialize_config_at_another_address_is_rejected() {
    let mut ledger = Ledger::new(key(PROGRAM));
    let ctx = InitializeConfig { config: key(STRANGER), admin: signer(ADMIN) };
    assert_eq!(
        initialize_config(&mut ledger, ctx, key(COMPANY), key(BACKEND)),
        Err(RideError::InvalidAccount)
    );
    assert_eq!(ledger.config(), None);
}

#[test]
fn create_config_without_a_derived_address_is_rejected() {
    let mut ledger = Ledger::new(key(PROGRAM));
    let ctx = InitializeConfig { config: config_address(), admin: signer(ADMIN) };
    assert_eq!(
        create_config(&mut ledger, ctx, key(COMPANY), key(BACKEND), None),
        Err(RideError::InvalidAccount)
    );
    assert_eq!(ledger.config(), None);
}

#[test]
fn create_config_at_the_given_address() {
    let mut ledger = Ledger::new(key(PROGRAM));
    let ctx = InitializeConfig { config: key(70), admin: signer(ADMIN) };
    assert_eq!(
        create_config(&mut ledger, ctx, key(COMPANY), key(BACKEND), Some((key(71), 255))),
        Err(RideError::InvalidAccount)
    );
    assert_eq!(
        create_config(&mut ledger, ctx, key(COMPANY), key(BACKEND), Some((key(70), 255))),
        Ok(())
    );
    assert_eq!(ledger.config_address(), Some(key(70)));
}

#[test]
fn update_config_before_it_exists_is_rejected() {
    let mut ledger = Ledger::new(key(PROGRAM));
    let ctx = UpdateConfig { config: config_address(), admin: signer(ADMIN) };
    assert_eq!(
        update_config(&mut ledger, ctx, Some(key(8)), None),
        Err(RideError::AccountNotInitialized)
    );
}

#[test]
fn update_config_by_the_admin_replaces_what_is_given() {
    let mut ledger = configured(0);
    let ctx = UpdateConfig { config: config_address(), admin: signer(ADMIN) };
    assert_eq!(update_config(&mut ledger, ctx, Some(key(8)), None), Ok(()));
    assert_eq!(
        ledger.config(),
        Some(Config { company_wallet: key(8), backend_authority: key(BACKEND), admin: key(ADMIN) })
    );
    assert_eq!(update_config(&mut ledger, ctx, None, Some(key(10))), Ok(()));
    assert_eq!(
        ledger.config(),
        Some(Config { company_wallet: key(8), backend_authority: key(10), admin: key(ADMIN) })
    );
    assert_eq!(update_config(&mut ledger, ctx, Some(key(11)), Some(key(12))), Ok(()));
    assert_eq!(
        ledger.config(),
        Some(Config { company_wallet: key(11), backend_authority: key(12), admin: key(ADMIN) })
    );
    assert_eq!(update_config(&mut ledger, ctx, None, None), Ok(()));
    assert_eq!(
        ledger.config(),
        Some(Config { company_wallet: key(11), backend_authority: key(12), admin: key(ADMIN) })
    );
    assert_eq!(ledger.config_address(), Some(config_address()));
}

#[test]
fn update_config_by_anyone_else_fails_with_unauthorized() {
    let mut ledger = configured(0);
    let before = ledger.config();
    for caller in [COMPANY, BACKEND, PASSENGER, DRIVER, STRANGER] {
        let ctx = UpdateConfig { config: config_address(), admin: signer(caller) };
        assert_eq!(
            update_config(&mut ledger, ctx, Some(key(caller)), Some(key(caller))),
            Err(RideError::Unauthorized)
        );
        assert_eq!(ledger.config(), before);
    }
}

#[test]
fn update_config_by_a_stranger_at_a_wrong_address_is_unauthorized() {
    let mut ledger = configured(0);
    let ctx = UpdateConfig { config: key(STRANGER), admin: signer(STRANGER) };
    assert_eq!(update_config(&mut ledger, ctx, None, None), Err(RideError::Unauthorized));
}

#[test]
fn update_config_at_a_wrong_address_is_rejected() {
    let mut ledger = configured(0);
    let before = ledger.config();
    let ctx = UpdateConfig { config: key(STRANGER), admin: signer(ADMIN) };
    assert_eq!(
        update_config(&mut ledger, ctx, Some(key(8)), None),
        Err(RideError::InvalidAccount)
    );
    assert_eq!(ledger.config(), before);
}

#[test]
fn initialize_ride_locks_the_amount() {
    let ledger = locked("ride-1", 1000, 1500);
    assert_eq!(ledger.balance_of(&key(PASSENGER)), Some(500));
    assert_eq!(ledger.balance_of(&vault_address("ride-1")), Some(1000));
    let ride = ledger.ride(&ride_address("ride-1")).unwrap();
    assert_eq!(ride.passenger, key(PASSENGER));
    assert_eq!(ride.driver, key(DRIVER));
    assert_eq!(ride.amount, 1000);
    assert_eq!(ride.ride_id, "ride-1");
    assert!(!ride.completed);
}

#[test]
fn initialize_ride_records_the_custody_account() {
    let ledger = locked("ride-1", 1000, 1500);
    assert_eq!(
        ledger.custody_of(&ride_address("ride-1")),
        find_vault_address("ride-1", &key(PROGRAM))
    );
}

#[test]
fn initialize_ride_needs_no_config() {
    let mut ledger = funded(1500);
    assert_eq!(
        initialize_ride(&mut ledger, lock_of("ride-1"), "ride-1".to_string(), 1000),
        Ok(())
    );
    assert_eq!(ledger.balance_of(&vault_address("ride-1")), Some(1000));
}

#[test]
fn initialize_ride_of_the_whole_balance() {
    let ledger = locked("ride-1", 1500, 1500);
    assert_eq!(ledger.balance_of(&key(PASSENGER)), Some(0));
    assert_eq!(ledger.balance_of(&vault_address("ride-1")), Some(1500));
}

#[test]
fn initialize_ride_of_nothing() {
    let ledger = locked("ride-1", 0, 1500);
    assert_eq!(ledger.balance_of(&key(PASSENGER)), Some(1500));
    assert_eq!(ledger.balance_of(&vault_address("ride-1")), Some(0));
    assert_eq!(ledger.ride(&ride_address("ride-1")).unwrap().amount, 0);
}

#[test]
fn initialize_ride_twice_fails_with_duplicate_ride() {
    let mut ledger = locked("ride-1", 1000, 1500);
    let before = snapshot(&ledger);
    assert_eq!(
        initialize_ride(&mut ledger, lock_of("ride-1"), "ride-1".to_string(), 1000),
        Err(RideError::DuplicateRide)
    );
    assert_eq!(snapshot(&ledger), before);
    assert_eq!(ledger.balance_of(&key(PASSENGER)), Some(500));
    assert_eq!(ledger.balance_of(&vault_address("ride-1")), Some(1000));
}

#[test]
fn initialize_ride_twice_fails_whoever_calls_and_whatever_the_amount() {
    let mut ledger = locked("ride-1", 1000, 1500);
    assert_eq!(ledger.open_account(key(STRANGER), 5000), Ok(()));
    let before = snapshot(&ledger);
    let other = InitializeRide {
        passenger: signer(STRANGER),
        driver: key(STRANGER),
        ..lock_of("ride-1")
    };
    assert_eq!(
        initialize_ride(&mut ledger, other, "ride-1".to_string(), 1),
        Err(RideError::DuplicateRide)
    );
    let elsewhere = InitializeRide { ride_account: key(70), vault: key(71), ..other };
    assert_eq!(
        initialize_ride(&mut ledger, elsewhere, "ride-1".to_string(), 1),
        Err(RideError::DuplicateRide)
    );
    assert_eq!(snapshot(&ledger), before);
    assert_eq!(ledger.ride(&ride_address("ride-1")).unwrap().passenger, key(PASSENGER));
}

#[test]
fn initialize_ride_after_settlement_is_still_a_duplicate() {
    let mut ledger = locked("ride-1", 1000, 1500);
    assert_eq!(complete_ride(&mut ledger, settle_of("ride-1")), Ok(()));
    assert_eq!(
        initialize_ride(&mut ledger, lock_of("ride-1"), "ride-1".to_string(), 100),
        Err(RideError::DuplicateRide)
    );
    assert_eq!(ledger.balance_of(&key(PASSENGER)), Some(500));
}

#[test]
fn initialize_ride_where_the_vault_address_is_a_wallet_is_a_duplicate() {
    let mut ledger = funded(1500);
    assert_eq!(ledger.open_account(vault_address("ride-1"), 3), Ok(()));
    assert_eq!(
        initialize_ride(&mut ledger, lock_of("ride-1"), "ride-1".to_string(), 1000),
        Err(RideError::DuplicateRide)
    );
    assert_eq!(ledger.ride(&ride_address("ride-1")), None);
    assert_eq!(ledger.balance_of(&key(PASSENGER)), Some(1500));
    assert_eq!(ledger.balance_of(&vault_address("ride-1")), Some(3));
}

#[test]
fn initialize_ride_at_a_wrong_record_address_is_rejected() {
    let mut ledger = funded(1500);
    let ctx = InitializeRide { ride_account: ride_address("ride-2"), ..lock_of("ride-1") };
    assert_eq!(
        initialize_ride(&mut ledger, ctx, "ride-1".to_string(), 1000),
        Err(RideError::InvalidAccount)
    );
    assert_eq!(ledger.ride(&ride_address("ride-1")), None);
    assert_eq!(ledger.ride(&ride_address("ride-2")), None);
    assert_eq!(ledger.balance_of(&key(PASSENGER)), Some(1500));
}

#[test]
fn initialize_ride_at_a_wrong_vault_address_is_rejected() {
    let mut ledger = funded(1500);
    let ctx = InitializeRide { vault: key(STRANGER), ..lock_of("ride-1") };
    assert_eq!(
        initialize_ride(&mut ledger, ctx, "ride-1".to_string(), 1000),
        Err(RideError::InvalidAccount)
    );
    assert_eq!(ledger.ride(&ride_address("ride-1")), None);
    assert_eq!(ledger.balance_of(&key(STRANGER)), None);
    assert_eq!(ledger.balance_of(&key(PASSENGER)), Some(1500));
}

#[test]
fn initialize_ride_with_an_identifier_too_long_to_derive_from_is_rejected() {
    let mut ledger = funded(1500);
    let id = "0123456789abcdef0123456789abcdef0";
    let ctx = InitializeRide {
        ride_account: key(70),
        vault: key(71),
        passenger: signer(PASSENGER),
        driver: key(DRIVER),
    };
    assert_eq!(
        initialize_ride(&mut ledger, ctx, id.to_string(), 1000),
        Err(RideError::InvalidAccount)
    );
    assert_eq!(ledger.balance_of(&key(PASSENGER)), Some(1500));
}

#[test]
fn initialize_ride_beyond_the_balance_fails_with_insufficient_funds() {
    let mut ledger = funded(999);
    assert_eq!(
        initialize_ride(&mut ledger, lock_of("ride-1"), "ride-1".to_string(), 1000),
        Err(RideError::InsufficientFunds)
    );
    assert_eq!(ledger.ride(&ride_address("ride-1")), None);
    assert_eq!(ledger.balance_of(&vault_address("ride-1")), None);
    assert_eq!(ledger.balance_of(&key(PASSENGER)), Some(999));
}

#[test]
fn initialize_ride_without_a_wallet_fails_with_insufficient_funds() {
    let mut ledger = Ledger::new(key(PROGRAM));
    assert_eq!(
        initialize_ride(&mut ledger, lock_of("ride-1"), "ride-1".to_string(), 0),
        Err(RideError::InsufficientFunds)
    );
    assert_eq!(ledger.ride(&ride_address("ride-1")), None);
    assert_eq!(ledger.balance_of(&vault_address("ride-1")), None);
}

#[test]
fn a_rejected_lock_can_be_made_again() {
    let mut ledger = funded(999);
    assert_eq!(
        initialize_ride(&mut ledger, lock_of("ride-1"), "ride-1".to_string(), 1000),
        Err(RideError::InsufficientFunds)
    );
    assert_eq!(
        initialize_ride(&mut ledger, lock_of("ride-1"), "ride-1".to_string(), 999),
        Ok(())
    );
    assert_eq!(ledger.balance_of(&vault_address("ride-1")), Some(999));
}

#[test]
fn lock_ride_without_derived_addresses_is_rejected() {
    let mut ledger = funded(1500);
    let record = find_ride_address("ride-1", &key(PROGRAM));
    let vault = find_vault_address("ride-1", &key(PROGRAM));
    assert_eq!(
        lock_ride(&mut ledger, lock_of("ride-1"), "ride-1".to_string(), 10, None, vault),
        Err(RideError::InvalidAccount)
    );
    assert_eq!(
        lock_ride(&mut ledger, lock_of("ride-1"), "ride-1".to_string(), 10, record, None),
        Err(RideError::InvalidAccount)
    );
    assert_eq!(
        lock_ride(&mut ledger, lock_of("ride-1"), "ride-1".to_string(), 10, None, None),
        Err(RideError::InvalidAccount)
    );
    assert_eq!(ledger.balance_of(&key(PASSENGER)), Some(1500));
    assert_eq!(
        lock_ride(&mut ledger, lock_of("ride-1"), "ride-1".to_string(), 10, record, vault),
        Ok(())
    );
    assert_eq!(ledger.balance_of(&key(PASSENGER)), Some(1490));
}

#[test]
fn lock_ride_at_the_given_addresses() {
    let mut ledger = funded(1500);
    let ctx = InitializeRide {
        ride_account: key(70),
        vault: key(71),
        passenger: signer(PASSENGER),
        driver: key(DRIVER),
    };
    assert_eq!(
        lock_ride(&mut ledger, ctx, "r".to_string(), 40, Some((key(70), 200)), Some((key(71), 201))),
        Ok(())
    );
    assert_eq!(ledger.custody_of(&key(70)), Some((key(71), 201)));
    assert_eq!(ledger.balance_of(&key(71)), Some(40));
    let again = InitializeRide { ride_account: key(72), vault: key(71), ..ctx };
    assert_eq!(
        lock_ride(&mut ledger, again, "s".to_string(), 40, Some((key(72), 200)), Some((key(71), 201))),
        Err(RideError::DuplicateRide)
    );
    assert_eq!(ledger.ride(&key(72)), None);
    assert_eq!(ledger.balance_of(&key(71)), Some(40));
}

#[test]
fn complete_ride_of_one_thousand_pays_fifty_and_nine_hundred_fifty() {
    let mut ledger = locked("ride-1", 1000, 1500);
    assert_eq!(complete_ride(&mut ledger, settle_of("ride-1")), Ok(()));
    assert_eq!(ledger.balance_of(&key(COMPANY)), Some(50));
    assert_eq!(ledger.balance_of(&key(DRIVER)), Some(950));
    assert_eq!(ledger.balance_of(&vault_address("ride-1")), Some(0));
    assert_eq!(ledger.balance_of(&key(PASSENGER)), Some(500));
    let ride = ledger.ride(&ride_address("ride-1")).unwrap();
    assert!(ride.completed);
    assert_eq!(ride.amount, 1000);
    assert_eq!(ride.passenger, key(PASSENGER));
    assert_eq!(ride.driver, key(DRIVER));
    assert_eq!(ride.ride_id, "ride-1");
}

#[test]
fn complete_ride_of_nineteen_pays_no_fee() {
    let mut ledger = locked("ride-1", 19, 19);
    assert_eq!(complete_ride(&mut ledger, settle_of("ride-1")), Ok(()));
    assert_eq!(ledger.balance_of(&key(COMPANY)), Some(0));
    assert_eq!(ledger.balance_of(&key(DRIVER)), Some(19));
    assert_eq!(ledger.balance_of(&vault_address("ride-1")), Some(0));
    assert!(ledger.ride(&ride_address("ride-1")).unwrap().completed);
}

#[test]
fn complete_ride_of_nothing() {
    let mut ledger = locked("ride-1", 0, 0);
    assert_eq!(complete_ride(&mut ledger, settle_of("ride-1")), Ok(()));
    assert_eq!(ledger.balance_of(&key(COMPANY)), Some(0));
    assert_eq!(ledger.balance_of(&key(DRIVER)), Some(0));
    assert!(ledger.ride(&ride_address("ride-1")).unwrap().completed);
}

#[test]
fn complete_ride_adds_to_what_the_recipients_hold() {
    let mut ledger = Ledger::new(key(PROGRAM));
    assert_eq!(ledger.open_account(key(COMPANY), 7), Ok(()));
    assert_eq!(ledger.open_account(key(DRIVER), 11), Ok(()));
    assert_eq!(ledger.open_account(key(PASSENGER), 2000), Ok(()));
    let ctx = InitializeConfig { config: config_address(), admin: signer(ADMIN) };
    assert_eq!(initialize_config(&mut ledger, ctx, key(COMPANY), key(BACKEND)), Ok(()));
    assert_eq!(
        initialize_ride(&mut ledger, lock_of("ride-1"), "ride-1".to_string(), 1999),
        Ok(())
    );
    assert_eq!(complete_ride(&mut ledger, settle_of("ride-1")), Ok(()));
    assert_eq!(ledger.balance_of(&key(COMPANY)), Some(7 + 99));
    assert_eq!(ledger.balance_of(&key(DRIVER)), Some(11 + 1900));
    assert_eq!(ledger.balance_of(&key(PASSENGER)), Some(1));
}

#[test]
fn complete_ride_twice_fails_with_already_completed() {
    let mut ledger = locked("ride-1", 1000, 1500);
    assert_eq!(complete_ride(&mut ledger, settle_of("ride-1")), Ok(()));
    let before = snapshot(&ledger);
    assert_eq!(
        complete_ride(&mut ledger, settle_of("ride-1")),
        Err(RideError::RideAlreadyCompleted)
    );
    assert_eq!(snapshot(&ledger), before);
    assert_eq!(ledger.balance_of(&vault_address("ride-1")), Some(0));
    assert_eq!(ledger.balance_of(&key(COMPANY)), Some(50));
    assert_eq!(ledger.balance_of(&key(DRIVER)), Some(950));
}

#[test]
fn complete_ride_before_initialize_ride_fails() {
    let mut ledger = configured(1500);
    let before = snapshot(&ledger);
    assert_eq!(
        complete_ride(&mut ledger, settle_of("ride-1")),
        Err(RideError::AccountNotInitialized)
    );
    assert_eq!(snapshot(&ledger), before);
}

#[test]
fn complete_ride_of_another_ride_than_the_locked_one_fails() {
    let mut ledger = locked("ride-1", 1000, 1500);
    assert_eq!(
        complete_ride(&mut ledger, settle_of("ride-2")),
        Err(RideError::AccountNotInitialized)
    );
    assert_eq!(ledger.balance_of(&vault_address("ride-1")), Some(1000));
}

#[test]
fn complete_ride_before_the_config_exists_fails() {
    let mut ledger = funded(1500);
    assert_eq!(
        initialize_ride(&mut ledger, lock_of("ride-1"), "ride-1".to_string(), 1000),
        Ok(())
    );
    assert_eq!(
        complete_ride(&mut ledger, settle_of("ride-1")),
        Err(RideError::AccountNotInitialized)
    );
    assert_eq!(ledger.balance_of(&vault_address("ride-1")), Some(1000));
    assert!(!ledger.ride(&ride_address("ride-1")).unwrap().completed);
}

#[test]
fn complete_ride_by_anyone_but_the_backend_fails_with_unauthorized() {
    let mut ledger = locked("ride-1", 1000, 1500);
    let before = snapshot(&ledger);
    for caller in [ADMIN, COMPANY, PASSENGER, DRIVER, STRANGER] {
        let ctx = CompleteRide { authority: signer(caller), ..settle_of("ride-1") };
        assert_eq!(complete_ride(&mut ledger, ctx), Err(RideError::Unauthorized));
        assert_eq!(snapshot(&ledger), before);
    }
    assert_eq!(ledger.balance_of(&vault_address("ride-1")), Some(1000));
    assert!(!ledger.ride(&ride_address("ride-1")).unwrap().completed);
}

#[test]
fn unauthorized_comes_before_every_other_rejection() {
    let mut ledger = locked("ride-1", 1000, 1500);
    let unknown = CompleteRide { authority: signer(STRANGER), ..settle_of("ride-2") };
    assert_eq!(complete_ride(&mut ledger, unknown), Err(RideError::Unauthorized));
    let redirected = CompleteRide {
        authority: signer(STRANGER),
        company_wallet: key(STRANGER),
        driver: key(STRANGER),
        ..settle_of("ride-1")
    };
    assert_eq!(complete_ride(&mut ledger, redirected), Err(RideError::Unauthorized));
    assert_eq!(complete_ride(&mut ledger, settle_of("ride-1")), Ok(()));
    let late = CompleteRide { authority: signer(STRANGER), ..settle_of("ride-1") };
    assert_eq!(complete_ride(&mut ledger, late), Err(RideError::Unauthorized));
}

#[test]
fn complete_ride_to_another_company_wallet_fails_with_invalid_account() {
    let mut ledger = locked("ride-1", 1000, 1500);
    assert_eq!(ledger.open_account(key(STRANGER), 0), Ok(()));
    let before = snapshot(&ledger);
    let ctx = CompleteRide { company_wallet: key(STRANGER), ..settle_of("ride-1") };
    assert_eq!(complete_ride(&mut ledger, ctx), Err(RideError::InvalidAccount));
    assert_eq!(snapshot(&ledger), before);
    assert_eq!(ledger.balance_of(&key(STRANGER)), Some(0));
    assert_eq!(ledger.balance_of(&key(COMPANY)), Some(0));
    assert_eq!(ledger.balance_of(&key(DRIVER)), Some(0));
    assert_eq!(ledger.balance_of(&vault_address("ride-1")), Some(1000));
    assert!(!ledger.ride(&ride_address("ride-1")).unwrap().completed);
}

#[test]
fn complete_ride_to_another_driver_fails_with_invalid_account() {
    let mut ledger = locked("ride-1", 1000, 1500);
    assert_eq!(ledger.open_account(key(STRANGER), 0), Ok(()));
    let before = snapshot(&ledger);
    let ctx = CompleteRide { driver: key(STRANGER), ..settle_of("ride-1") };
    assert_eq!(complete_ride(&mut ledger, ctx), Err(RideError::InvalidAccount));
    assert_eq!(snapshot(&ledger), before);
}

#[test]
fn complete_ride_with_another_passenger_fails_with_invalid_account() {
    let mut ledger = locked("ride-1", 1000, 1500);
    let before = snapshot(&ledger);
    let ctx = CompleteRide { passenger: key(STRANGER), ..settle_of("ride-1") };
    assert_eq!(complete_ride(&mut ledger, ctx), Err(RideError::InvalidAccount));
    assert_eq!(snapshot(&ledger), before);
}

#[test]
fn complete_ride_from_another_vault_fails_with_invalid_account() {
    let mut ledger = locked("ride-1", 1000, 3000);
    assert_eq!(
        initialize_ride(&mut ledger, lock_of("ride-2"), "ride-2".to_string(), 1000),
        Ok(())
    );
    let before = snapshot(&ledger);
    let ctx = CompleteRide { vault: vault_address("ride-2"), ..settle_of("ride-1") };
    assert_eq!(complete_ride(&mut ledger, ctx), Err(RideError::InvalidAccount));
    assert_eq!(snapshot(&ledger), before);
}

#[test]
fn complete_ride_with_another_config_account_fails_with_invalid_account() {
    let mut ledger = locked("ride-1", 1000, 1500);
    let before = snapshot(&ledger);
    let ctx = CompleteRide { config: key(STRANGER), ..settle_of("ride-1") };
    assert_eq!(complete_ride(&mut ledger, ctx), Err(RideError::InvalidAccount));
    assert_eq!(snapshot(&ledger), before);
}

#[test]
fn complete_ride_to_a_missing_driver_wallet_fails_and_can_be_retried() {
    let mut ledger = Ledger::new(key(PROGRAM));
    assert_eq!(ledger.open_account(key(COMPANY), 0), Ok(()));
    assert_eq!(ledger.open_account(key(PASSENGER), 1500), Ok(()));
    let ctx = InitializeConfig { config: config_address(), admin: signer(ADMIN) };
    assert_eq!(initialize_config(&mut ledger, ctx, key(COMPANY), key(BACKEND)), Ok(()));
    assert_eq!(
        initialize_ride(&mut ledger, lock_of("ride-1"), "ride-1".to_string(), 1000),
        Ok(())
    );
    let before = snapshot(&ledger);
    assert_eq!(complete_ride(&mut ledger, settle_of("ride-1")), Err(RideError::TransferFailed));
    assert_eq!(snapshot(&ledger), before);
    assert_eq!(ledger.balance_of(&key(COMPANY)), Some(0));
    assert_eq!(ledger.balance_of(&vault_address("ride-1")), Some(1000));
    assert!(!ledger.ride(&ride_address("ride-1")).unwrap().completed);
    assert_eq!(ledger.open_account(key(DRIVER), 0), Ok(()));
    assert_eq!(complete_ride(&mut ledger, settle_of("ride-1")), Ok(()));
    assert_eq!(ledger.balance_of(&key(COMPANY)), Some(50));
    assert_eq!(ledger.balance_of(&key(DRIVER)), Some(950));
    assert_eq!(ledger.balance_of(&vault_address("ride-1")), Some(0));
}

#[test]
fn complete_ride_to_a_missing_company_wallet_fails() {
    let mut ledger = Ledger::new(key(PROGRAM));
    assert_eq!(ledger.open_account(key(DRIVER), 0), Ok(()));
    assert_eq!(ledger.open_account(key(PASSENGER), 1500), Ok(()));
    let ctx = InitializeConfig { config: config_address(), admin: signer(ADMIN) };
    assert_eq!(initialize_config(&mut ledger, ctx, key(COMPANY), key(BACKEND)), Ok(()));
    assert_eq!(
        initialize_ride(&mut ledger, lock_of("ride-1"), "ride-1".to_string(), 1000),
        Ok(())
    );
    assert_eq!(complete_ride(&mut ledger, settle_of("ride-1")), Err(RideError::TransferFailed));
    assert_eq!(ledger.balance_of(&key(DRIVER)), Some(0));
    assert_eq!(ledger.balance_of(&vault_address("ride-1")), Some(1000));
}

#[test]
fn complete_ride_that_would_overflow_the_driver_fails_and_moves_nothing() {
    let mut ledger = Ledger::new(key(PROGRAM));
    assert_eq!(ledger.open_account(key(COMPANY), 0), Ok(()));
    assert_eq!(ledger.open_account(key(DRIVER), u64::MAX - 949), Ok(()));
    assert_eq!(ledger.open_account(key(PASSENGER), 1500), Ok(()));
    let ctx = InitializeConfig { config: config_address(), admin: signer(ADMIN) };
    assert_eq!(initialize_config(&mut ledger, ctx, key(COMPANY), key(BACKEND)), Ok(()));
    assert_eq!(
        initialize_ride(&mut ledger, lock_of("ride-1"), "ride-1".to_string(), 1000),
        Ok(())
    );
    assert_eq!(complete_ride(&mut ledger, settle_of("ride-1")), Err(RideError::TransferFailed));
    assert_eq!(ledger.balance_of(&key(COMPANY)), Some(0));
    assert_eq!(ledger.balance_of(&key(DRIVER)), Some(u64::MAX - 949));
    assert_eq!(ledger.balance_of(&vault_address("ride-1")), Some(1000));
    assert!(!ledger.ride(&ride_address("ride-1")).unwrap().completed);
}

#[test]
fn complete_ride_where_the_driver_is_the_company_pays_the_whole_amount() {
    let mut ledger = Ledger::new(key(PROGRAM));
    assert_eq!(ledger.open_account(key(COMPANY), 0), Ok(()));
    assert_eq!(ledger.open_account(key(PASSENGER), 1500), Ok(()));
    let ctx = InitializeConfig { config: config_address(), admin: signer(ADMIN) };
    assert_eq!(initialize_config(&mut ledger, ctx, key(COMPANY), key(BACKEND)), Ok(()));
    let lock = InitializeRide { driver: key(COMPANY), ..lock_of("ride-1") };
    assert_eq!(initialize_ride(&mut ledger, lock, "ride-1".to_string(), 1000), Ok(()));
    let settle = CompleteRide { driver: key(COMPANY), ..settle_of("ride-1") };
    assert_eq!(complete_ride(&mut ledger, settle), Ok(()));
    assert_eq!(ledger.balance_of(&key(COMPANY)), Some(1000));
    assert_eq!(ledger.balance_of(&vault_address("ride-1")), Some(0));
}

#[test]
fn two_rides_are_settled_independently() {
    let mut ledger = locked("ride-1", 1000, 3000);
    assert_eq!(
        initialize_ride(&mut ledger, lock_of("ride-2"), "ride-2".to_string(), 400),
        Ok(())
    );
    assert_eq!(ledger.balance_of(&key(PASSENGER)), Some(1600));
    assert_eq!(complete_ride(&mut ledger, settle_of("ride-2")), Ok(()));
    assert_eq!(ledger.balance_of(&vault_address("ride-1")), Some(1000));
    assert_eq!(ledger.balance_of(&vault_address("ride-2")), Some(0));
    assert_eq!(ledger.balance_of(&key(COMPANY)), Some(20));
    assert_eq!(ledger.balance_of(&key(DRIVER)), Some(380));
    assert!(!ledger.ride(&ride_address("ride-1")).unwrap().completed);
    assert!(ledger.ride(&ride_address("ride-2")).unwrap().completed);
    assert_eq!(complete_ride(&mut ledger, settle_of("ride-1")), Ok(()));
    assert_eq!(ledger.balance_of(&key(COMPANY)), Some(70));
    assert_eq!(ledger.balance_of(&key(DRIVER)), Some(1330));
    assert_eq!(ledger.balance_of(&vault_address("ride-1")), Some(0));
}

#[test]
fn a_new_backend_authority_settles_and_the_old_one_no_longer_does() {
    let mut ledger = locked("ride-1", 1000, 1500);
    let update = UpdateConfig { config: config_address(), admin: signer(ADMIN) };
    assert_eq!(update_config(&mut ledger, update, None, Some(key(STRANGER))), Ok(()));
    assert_eq!(complete_ride(&mut ledger, settle_of("ride-1")), Err(RideError::Unauthorized));
    let ctx = CompleteRide { authority: signer(STRANGER), ..settle_of("ride-1") };
    assert_eq!(complete_ride(&mut ledger, ctx), Ok(()));
    assert_eq!(ledger.balance_of(&key(DRIVER)), Some(950));
}

#[test]
fn a_new_company_wallet_receives_the_fee() {
    let mut ledger = locked("ride-1", 1000, 1500);
    assert_eq!(ledger.open_account(key(STRANGER), 0), Ok(()));
    let update = UpdateConfig { config: config_address(), admin: signer(ADMIN) };
    assert_eq!(update_config(&mut ledger, update, Some(key(STRANGER)), None), Ok(()));
    assert_eq!(complete_ride(&mut ledger, settle_of("ride-1")), Err(RideError::InvalidAccount));
    let ctx = CompleteRide { company_wallet: key(STRANGER), ..settle_of("ride-1") };
    assert_eq!(complete_ride(&mut ledger, ctx), Ok(()));
    assert_eq!(ledger.balance_of(&key(STRANGER)), Some(50));
    assert_eq!(ledger.balance_of(&key(COMPANY)), Some(0));
}

#[test]
fn what_is_locked_is_what_is_paid_out() {
    let amounts: [u64; 8] = [0, 1, 19, 20, 21, 39, 40, 123_456_789];
    for (index, amount) in amounts.iter().enumerate() {
        let ride_id = format!("ride-{}", index);
        let mut ledger = configured(*amount);
        assert_eq!(
            initialize_ride(&mut ledger, lock_of(&ride_id), ride_id.clone(), *amount),
            Ok(())
        );
        assert_eq!(ledger.balance_of(&vault_address(&ride_id)), Some(*amount));
        assert_eq!(complete_ride(&mut ledger, settle_of(&ride_id)), Ok(()));
        let fee = ledger.balance_of(&key(COMPANY)).unwrap();
        let paid = ledger.balance_of(&key(DRIVER)).unwrap();
        assert_eq!(fee, amount / 20);
        assert_eq!(fee + paid, *amount);
        assert_eq!(ledger.balance_of(&vault_address(&ride_id)), Some(0));
        assert_eq!(ledger.balance_of(&key(PASSENGER)), Some(0));
    }
}

#[test]
fn initialize_config_without_a_signature_is_rejected() {
    let mut ledger = Ledger::new(key(PROGRAM));
    let ctx = InitializeConfig { config: config_address(), admin: Caller::unsigned(key(ADMIN)) };
    assert_eq!(
        initialize_config(&mut ledger, ctx, key(COMPANY), key(BACKEND)),
        Err(RideError::MissingSignature)
    );
    assert_eq!(ledger.config(), None);
}

#[test]
fn update_config_without_a_signature_is_rejected() {
    let mut ledger = configured(0);
    let before = ledger.config();
    let ctx = UpdateConfig { config: config_address(), admin: Caller::unsigned(key(ADMIN)) };
    assert_eq!(
        update_config(&mut ledger, ctx, Some(key(8)), Some(key(9))),
        Err(RideError::MissingSignature)
    );
    assert_eq!(ledger.config(), before);
}

#[test]
fn initialize_ride_without_a_signature_is_rejected() {
    let mut ledger = funded(1500);
    let ctx = InitializeRide { passenger: Caller::unsigned(key(PASSENGER)), ..lock_of("ride-1") };
    assert_eq!(
        initialize_ride(&mut ledger, ctx, "ride-1".to_string(), 1000),
        Err(RideError::MissingSignature)
    );
    assert_eq!(ledger.ride(&ride_address("ride-1")), None);
    assert_eq!(ledger.balance_of(&vault_address("ride-1")), None);
    assert_eq!(ledger.balance_of(&key(PASSENGER)), Some(1500));
}

#[test]
fn complete_ride_without_a_signature_is_rejected() {
    let mut ledger = locked("ride-1", 1000, 1500);
    let before = snapshot(&ledger);
    let ctx = CompleteRide { authority: Caller::unsigned(key(BACKEND)), ..settle_of("ride-1") };
    assert_eq!(complete_ride(&mut ledger, ctx), Err(RideError::MissingSignature));
    assert_eq!(snapshot(&ledger), before);
    assert_eq!(ledger.balance_of(&vault_address("ride-1")), Some(1000));
    assert!(!ledger.ride(&ride_address("ride-1")).unwrap().completed);
}

#[test]
fn complete_ride_by_a_stranger_without_a_signature_is_unauthorized() {
    let mut ledger = locked("ride-1", 1000, 1500);
    let ctx = CompleteRide { authority: Caller::unsigned(key(STRANGER)), ..settle_of("ride-1") };
    assert_eq!(complete_ride(&mut ledger, ctx), Err(RideError::Unauthorized));
}

fn funds(ledger: &Ledger) -> u128 {
    let mut sum: u128 = 0;
    for tag in [ADMIN, COMPANY, BACKEND, PASSENGER, DRIVER, STRANGER] {
        sum += ledger.balance_of(&key(tag)).unwrap_or(0) as u128;
    }
    for ride_id in ["ride-1", "ride-2"] {
        sum += ledger.balance_of(&vault_address(ride_id)).unwrap_or(0) as u128;
    }
    sum
}

#[test]
fn funds_enter_by_opening_wallets_and_are_conserved_afterwards() {
    let mut ledger = Ledger::new(key(PROGRAM));
    assert_eq!(funds(&ledger), 0);
    assert_eq!(ledger.open_account(key(COMPANY), 7), Ok(()));
    assert_eq!(ledger.open_account(key(DRIVER), 11), Ok(()));
    assert_eq!(ledger.open_account(key(PASSENGER), 3000), Ok(()));
    assert_eq!(funds(&ledger), 3018);
    let ctx = InitializeConfig { config: config_address(), admin: signer(ADMIN) };
    assert_eq!(initialize_config(&mut ledger, ctx, key(COMPANY), key(BACKEND)), Ok(()));
    assert_eq!(funds(&ledger), 3018);
    assert_eq!(
        initialize_ride(&mut ledger, lock_of("ride-1"), "ride-1".to_string(), 1999),
        Ok(())
    );
    assert_eq!(funds(&ledger), 3018);
    assert_eq!(
        initialize_ride(&mut ledger, lock_of("ride-2"), "ride-2".to_string(), 1001),
        Ok(())
    );
    assert_eq!(funds(&ledger), 3018);
    assert_eq!(ledger.balance_of(&key(PASSENGER)), Some(0));
    assert_eq!(complete_ride(&mut ledger, settle_of("ride-2")), Ok(()));
    assert_eq!(funds(&ledger), 3018);
    assert_eq!(complete_ride(&mut ledger, settle_of("ride-1")), Ok(()));
    assert_eq!(funds(&ledger), 3018);
    assert_eq!(complete_ride(&mut ledger, settle_of("ride-1")), Err(RideError::RideAlreadyCompleted));
    assert_eq!(funds(&ledger), 3018);
    assert_eq!(ledger.balance_of(&key(COMPANY)), Some(7 + 99 + 50));
    assert_eq!(ledger.balance_of(&key(DRIVER)), Some(11 + 1900 + 951));
}

#[test]
fn custody_holds_exactly_what_is_locked() {
    let mut ledger = locked("ride-1", 1000, 3000);
    assert_eq!(
        initialize_ride(&mut ledger, lock_of("ride-2"), "ride-2".to_string(), 19),
        Ok(())
    );
    let (first, _) = ledger.custody_of(&ride_address("ride-1")).unwrap();
    let (second, _) = ledger.custody_of(&ride_address("ride-2")).unwrap();
    assert_ne!(first, second);
    assert_eq!(ledger.balance_of(&first), Some(1000));
    assert_eq!(ledger.balance_of(&second), Some(19));
    assert_eq!(complete_ride(&mut ledger, settle_of("ride-1")), Ok(()));
    assert_eq!(ledger.balance_of(&first), Some(0));
    assert_eq!(ledger.balance_of(&second), Some(19));
    assert_eq!(complete_ride(&mut ledger, settle_of("ride-2")), Ok(()));
    assert_eq!(ledger.balance_of(&second), Some(0));
}
