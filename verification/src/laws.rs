//! What holds of every ledger and of every sequence of operations.

use vstd::prelude::*;
use crate::address::{program_address, ride_seeds, vault_seeds, Address, Derived};
use crate::config::ConfigEntry;
use crate::context::{Caller, CompleteRide, InitializeConfig, InitializeRide, UpdateConfig};
use crate::error::RideError;
use crate::bank::{credited, lemma_total_insert, lemma_total_moves, total};
use crate::fee::{company_fee_of, driver_amount_of, Settlement};
use crate::model::LedgerView;

verus! {

/// A ledger on which nothing has happened is in a consistent state, holds no
/// ride and no funds, and has every record it holds (none) at its derived
/// address.
pub proof fn lemma_empty_is_wf(program_id: Address)
    ensures
        LedgerView::empty(program_id).wf(),
        LedgerView::empty(program_id).lies_at_derived_addresses(),
        LedgerView::empty(program_id).funds() == 0,
        forall|key: Seq<u8>| !LedgerView::empty(program_id).rides.dom().contains(key),
{
}

/// Opening a wallet leads from a consistent state to a consistent state.
pub proof fn lemma_open_account_keeps_wf(pre: LedgerView, key: Seq<u8>, amount: u64)
    requires
        pre.wf(),
        pre.open_account(key, amount) is Ok,
    ensures
        pre.open_account(key, amount)->Ok_0.wf(),
{
    let post = pre.open_account(key, amount)->Ok_0;
    assert forall|k: Seq<u8>| #[trigger] post.rides.dom().contains(k) implies post.holds_locked_funds(
        post.rides[k],
    ) by {
        assert(pre.holds_locked_funds(pre.rides[k]));
    }
}

/// Creating the configuration record leads from a consistent state to a
/// consistent state.
pub proof fn lemma_create_config_keeps_wf(
    pre: LedgerView,
    ctx: InitializeConfig,
    company_wallet: Address,
    backend_authority: Address,
    derived: Derived,
)
    requires
        pre.wf(),
        pre.create_config(ctx, company_wallet, backend_authority, derived) is Ok,
    ensures
        pre.create_config(ctx, company_wallet, backend_authority, derived)->Ok_0.wf(),
{
    let post = pre.create_config(ctx, company_wallet, backend_authority, derived)->Ok_0;
    assert forall|k: Seq<u8>| #[trigger] post.rides.dom().contains(k) implies post.holds_locked_funds(
        post.rides[k],
    ) by {
        assert(pre.holds_locked_funds(pre.rides[k]));
    }
}

/// Changing the configuration record leads from a consistent state to a
/// consistent state.
pub proof fn lemma_update_config_keeps_wf(
    pre: LedgerView,
    ctx: UpdateConfig,
    company_wallet: Option<Address>,
    backend_authority: Option<Address>,
)
    requires
        pre.wf(),
        pre.update_config(ctx, company_wallet, backend_authority) is Ok,
    ensures
        pre.update_config(ctx, company_wallet, backend_authority)->Ok_0.wf(),
{
    let post = pre.update_config(ctx, company_wallet, backend_authority)->Ok_0;
    assert forall|k: Seq<u8>| #[trigger] post.rides.dom().contains(k) implies post.holds_locked_funds(
        post.rides[k],
    ) by {
        assert(pre.holds_locked_funds(pre.rides[k]));
    }
}

/// Locking the funds of a ride leads from a consistent state to a consistent
/// state: the new custody account holds exactly the amount, and every other
/// ride's custody account is untouched.
pub proof fn lemma_lock_ride_keeps_wf(
    pre: LedgerView,
    ctx: InitializeRide,
    ride_id: Seq<char>,
    amount: u64,
    record: Derived,
    vault: Derived,
)
    requires
        pre.wf(),
        pre.lock_ride(ctx, ride_id, amount, record, vault) is Ok,
    ensures
        pre.lock_ride(ctx, ride_id, amount, record, vault)->Ok_0.wf(),
{
    let post = pre.lock_ride(ctx, ride_id, amount, record, vault)->Ok_0;
    let new_key = ctx.ride_account@;
    assert(!pre.rides.dom().contains(new_key));
    assert(!pre.vaults.dom().contains(ctx.vault@));
    assert(!pre.wallets.dom().contains(ctx.vault@));
    assert forall|k: Seq<u8>| #[trigger] post.rides.dom().contains(k) implies post.holds_locked_funds(
        post.rides[k],
    ) by {
        if k != new_key {
            assert(pre.rides.dom().contains(k));
            assert(pre.holds_locked_funds(pre.rides[k]));
        }
    }
    assert forall|first: Seq<u8>, second: Seq<u8>|
        #![trigger post.rides.dom().contains(first), post.rides.dom().contains(second)]
        post.rides.dom().contains(first) && post.rides.dom().contains(second) && first
            != second implies post.rides[first].vault != post.rides[second].vault by {
        if first != new_key {
            assert(pre.rides.dom().contains(first));
            assert(pre.holds_locked_funds(pre.rides[first]));
        }
        if second != new_key {
            assert(pre.rides.dom().contains(second));
            assert(pre.holds_locked_funds(pre.rides[second]));
        }
    }
}

/// Settling a ride leads from a consistent state to a consistent state: the
/// ride's custody account is drained, and every other ride's custody account
/// is untouched.
pub proof fn lemma_complete_ride_keeps_wf(pre: LedgerView, ctx: CompleteRide)
    requires
        pre.wf(),
        pre.complete_ride(ctx) is Ok,
    ensures
        pre.complete_ride(ctx)->Ok_0.wf(),
{
    let post = pre.complete_ride(ctx)->Ok_0;
    let key = ctx.ride_account@;
    assert(pre.rides.dom().contains(key));
    assert(pre.holds_locked_funds(pre.rides[key]));
    assert forall|k: Seq<u8>| #[trigger] post.rides.dom().contains(k) implies post.holds_locked_funds(
        post.rides[k],
    ) by {
        assert(pre.rides.dom().contains(k));
        assert(pre.holds_locked_funds(pre.rides[k]));
        if k != key {
            Address::lemma_view_injective(pre.rides[k].vault, pre.rides[key].vault);
        }
    }
    assert forall|first: Seq<u8>, second: Seq<u8>|
        #![trigger post.rides.dom().contains(first), post.rides.dom().contains(second)]
        post.rides.dom().contains(first) && post.rides.dom().contains(second) && first
            != second implies post.rides[first].vault != post.rides[second].vault by {
        assert(pre.rides.dom().contains(first));
        assert(pre.rides.dom().contains(second));
    }
}

/// Whatever operation takes effect, a consistent state leads to a consistent
/// state: every custody account holds exactly what its ride has locked, no
/// custody account is shared, and none is anyone's wallet.
pub proof fn lemma_every_step_keeps_wf(pre: LedgerView, post: LedgerView)
    requires
        pre.wf(),
        pre.steps_to(post),
    ensures
        post.wf(),
{
    if exists|key: Seq<u8>, amount: u64|
        pre.open_account(key, amount) == Ok::<LedgerView, RideError>(post) {
        let (key, amount) = choose|key: Seq<u8>, amount: u64|
            pre.open_account(key, amount) == Ok::<LedgerView, RideError>(post);
        lemma_open_account_keeps_wf(pre, key, amount);
    } else if exists|
        ctx: InitializeConfig,
        company_wallet: Address,
        backend_authority: Address,
        derived: Derived,
    |
        pre.create_config(ctx, company_wallet, backend_authority, derived) == Ok::<
            LedgerView,
            RideError,
        >(post) {
        let (ctx, company_wallet, backend_authority, derived) = choose|
            ctx: InitializeConfig,
            company_wallet: Address,
            backend_authority: Address,
            derived: Derived,
        |
            pre.create_config(ctx, company_wallet, backend_authority, derived) == Ok::<
                LedgerView,
                RideError,
            >(post);
        lemma_create_config_keeps_wf(pre, ctx, company_wallet, backend_authority, derived);
    } else if exists|
        ctx: UpdateConfig,
        company_wallet: Option<Address>,
        backend_authority: Option<Address>,
    |
        pre.update_config(ctx, company_wallet, backend_authority) == Ok::<LedgerView, RideError>(
            post,
        ) {
        let (ctx, company_wallet, backend_authority) = choose|
            ctx: UpdateConfig,
            company_wallet: Option<Address>,
            backend_authority: Option<Address>,
        |
            pre.update_config(ctx, company_wallet, backend_authority) == Ok::<
                LedgerView,
                RideError,
            >(post);
        lemma_update_config_keeps_wf(pre, ctx, company_wallet, backend_authority);
    } else if exists|
        ctx: InitializeRide,
        ride_id: Seq<char>,
        amount: u64,
        record: Derived,
        vault: Derived,
    |
        pre.lock_ride(ctx, ride_id, amount, record, vault) == Ok::<LedgerView, RideError>(post) {
        let (ctx, ride_id, amount, record, vault) = choose|
            ctx: InitializeRide,
            ride_id: Seq<char>,
            amount: u64,
            record: Derived,
            vault: Derived,
        |
            pre.lock_ride(ctx, ride_id, amount, record, vault) == Ok::<LedgerView, RideError>(
                post,
            );
        lemma_lock_ride_keeps_wf(pre, ctx, ride_id, amount, record, vault);
    } else {
        let ctx = choose|ctx: CompleteRide|
            pre.complete_ride(ctx) == Ok::<LedgerView, RideError>(post);
        lemma_complete_ride_keeps_wf(pre, ctx);
    }
}

/// Where the operations create their records at the addresses that the
/// derivation gives, every record lies at its derived address: the
/// configuration record under its label, each escrow record and each custody
/// account under the identifier of its ride.
pub proof fn lemma_records_lie_at_derived_addresses(pre: LedgerView, post: LedgerView)
    requires
        pre.lies_at_derived_addresses(),
        pre.advances_to(post),
    ensures
        post.lies_at_derived_addresses(),
        post.program_id == pre.program_id,
{
    assert forall|key: Seq<u8>| #[trigger] post.rides.dom().contains(key) implies ({
        let ride = post.rides[key];
        &&& program_address(ride_seeds(ride.record.ride_id), post.program_id@) matches Some(
            (derived, _),
        ) && derived == key
        &&& program_address(vault_seeds(ride.record.ride_id), post.program_id@) == Some(
            (ride.vault@, ride.bump),
        )
    }) by {
        if pre.rides.dom().contains(key) {
            assert(post.rides[key].record.ride_id == pre.rides[key].record.ride_id);
        }
    }
}

/// The locked funds are there when they are due: in a consistent state a
/// settlement is never rejected for want of funds in custody.
pub proof fn lemma_custody_covers_settlement(pre: LedgerView, ctx: CompleteRide)
    requires
        pre.wf(),
    ensures
        pre.complete_ride(ctx) != Err::<LedgerView, RideError>(RideError::InsufficientFunds),
{
    if pre.config is Some && pre.rides.dom().contains(ctx.ride_account@) {
        assert(pre.holds_locked_funds(pre.rides[ctx.ride_account@]));
    }
}

/// What a settlement does: the custody account ends empty, the record ends
/// completed and otherwise as it was, and the two payments add up to the
/// locked amount, a twentieth of it (rounded down) being the platform's. No
/// other balance changes.
pub proof fn lemma_settlement_pays_out(pre: LedgerView, ctx: CompleteRide)
    requires
        pre.wf(),
        pre.complete_ride(ctx) is Ok,
    ensures
        ({
            let post = pre.complete_ride(ctx)->Ok_0;
            let ride = pre.rides[ctx.ride_account@];
            let fee = company_fee_of(ride.record.amount as nat);
            let rest = driver_amount_of(ride.record.amount as nat);
            &&& post.balance(ctx.vault@) == Some(0u64)
            &&& post.rides[ctx.ride_account@] == ride.settled()
            &&& post.rides[ctx.ride_account@].record.completed
            &&& fee + rest == ride.record.amount
            &&& fee == ride.record.amount / 20
            &&& ctx.company_wallet != ctx.driver ==> post.wallets[ctx.company_wallet@]
                == pre.wallets[ctx.company_wallet@] + fee && post.wallets[ctx.driver@]
                == pre.wallets[ctx.driver@] + rest
            &&& ctx.company_wallet == ctx.driver ==> post.wallets[ctx.driver@]
                == pre.wallets[ctx.driver@] + ride.record.amount
            &&& forall|other: Seq<u8>|
                other != ctx.company_wallet@ && other != ctx.driver@ && other != ctx.vault@
                    ==> #[trigger] post.balance(other) == pre.balance(other)
        }),
{
    let ride = pre.rides[ctx.ride_account@];
    assert(pre.holds_locked_funds(ride));
    Address::lemma_view_injective(ctx.company_wallet, ctx.driver);
}

/// A ride is settled once: after a settlement, the same call is rejected
/// because the ride is already completed.
pub proof fn lemma_second_settlement_is_rejected(pre: LedgerView, ctx: CompleteRide)
    requires
        pre.complete_ride(ctx) is Ok,
    ensures
        pre.complete_ride(ctx)->Ok_0.complete_ride(ctx) == Err::<LedgerView, RideError>(
            RideError::RideAlreadyCompleted,
        ),
{
}

/// A completed ride cannot be settled by anyone, and the backend authority is
/// told that the ride is already completed.
pub proof fn lemma_completed_ride_is_final(pre: LedgerView, ctx: CompleteRide)
    requires
        pre.rides.dom().contains(ctx.ride_account@),
        pre.rides[ctx.ride_account@].record.completed,
    ensures
        pre.complete_ride(ctx) is Err,
        pre.config is Some && ctx.authority == Caller::signed_by(
            pre.config->Some_0.record.backend_authority,
        ) ==> pre.complete_ride(ctx) == Err::<LedgerView, RideError>(
            RideError::RideAlreadyCompleted,
        ),
{
}

/// A ride whose funds were never locked cannot be settled: where no escrow
/// record lies at the address named, the call is rejected.
pub proof fn lemma_unknown_ride_is_rejected(pre: LedgerView, ctx: CompleteRide)
    requires
        !pre.rides.dom().contains(ctx.ride_account@),
    ensures
        pre.complete_ride(ctx) is Err,
        pre.config is Some && ctx.authority == Caller::signed_by(
            pre.config->Some_0.record.backend_authority,
        ) ==> pre.complete_ride(ctx) == Err::<LedgerView, RideError>(
            RideError::AccountNotInitialized,
        ),
{
}

/// A ride whose funds were never locked under its identifier cannot be
/// settled, short of a collision in the derivation: where every record lies
/// at its derived address and none bears the identifier, a settlement at the
/// identifier's address is rejected, unless the record of another identifier
/// lies at that very address.
pub proof fn lemma_ride_never_locked_is_rejected(
    pre: LedgerView,
    ctx: CompleteRide,
    ride_id: Seq<char>,
)
    requires
        pre.lies_at_derived_addresses(),
        forall|key: Seq<u8>| #[trigger]
            pre.rides.dom().contains(key) ==> pre.rides[key].record.ride_id != ride_id,
        program_address(ride_seeds(ride_id), pre.program_id@) matches Some((key, _)) && key
            == ctx.ride_account@,
    ensures
        pre.complete_ride(ctx) is Err || ({
            let other = pre.rides[ctx.ride_account@].record.ride_id;
            &&& pre.rides.dom().contains(ctx.ride_account@)
            &&& other != ride_id
            &&& program_address(ride_seeds(other), pre.program_id@) matches Some((key, _)) && key
                == ctx.ride_account@
        }),
{
}

/// Only the backend authority settles rides: any other caller is told that it
/// is not authorized, whatever else it supplies and whether it signed or not.
pub proof fn lemma_only_backend_settles(pre: LedgerView, config: ConfigEntry, ctx: CompleteRide)
    requires
        pre.config == Some(config),
        ctx.authority.key != config.record.backend_authority,
    ensures
        pre.complete_ride(ctx) == Err::<LedgerView, RideError>(RideError::Unauthorized),
{
}

/// No operation takes effect without the signature of the identity it runs
/// for: where the caller did not sign, the operation is rejected.
pub proof fn lemma_unsigned_calls_are_rejected(
    pre: LedgerView,
    create: InitializeConfig,
    update: UpdateConfig,
    lock: InitializeRide,
    settle: CompleteRide,
    company_wallet: Address,
    backend_authority: Address,
    new_company_wallet: Option<Address>,
    new_backend_authority: Option<Address>,
    ride_id: Seq<char>,
    amount: u64,
    derived: Derived,
    record: Derived,
    vault: Derived,
)
    ensures
        !create.admin.signed ==> pre.create_config(
            create,
            company_wallet,
            backend_authority,
            derived,
        ) is Err,
        !update.admin.signed ==> pre.update_config(
            update,
            new_company_wallet,
            new_backend_authority,
        ) is Err,
        !lock.passenger.signed ==> pre.lock_ride(lock, ride_id, amount, record, vault) is Err,
        !settle.authority.signed ==> pre.complete_ride(settle) is Err,
{
}

/// Only the admin changes the configuration: any other caller is told that it
/// is not authorized, whatever else it supplies and whether it signed or not.
pub proof fn lemma_only_admin_updates(
    pre: LedgerView,
    config: ConfigEntry,
    ctx: UpdateConfig,
    company_wallet: Option<Address>,
    backend_authority: Option<Address>,
)
    requires
        pre.config == Some(config),
        ctx.admin.key != config.record.admin,
    ensures
        pre.update_config(ctx, company_wallet, backend_authority) == Err::<LedgerView, RideError>(
            RideError::Unauthorized,
        ),
{
}

/// The configuration record is created once: when it exists, every further
/// attempt to create it is rejected because it already exists.
pub proof fn lemma_config_is_created_once(
    pre: LedgerView,
    ctx: InitializeConfig,
    company_wallet: Address,
    backend_authority: Address,
)
    requires
        pre.config is Some,
    ensures
        pre.initialize_config(ctx, company_wallet, backend_authority) == Err::<
            LedgerView,
            RideError,
        >(RideError::AlreadyExists),
        forall|derived: Derived|
            #[trigger] pre.create_config(ctx, company_wallet, backend_authority, derived) == Err::<
                LedgerView,
                RideError,
            >(RideError::AlreadyExists),
{
}

/// A ride identifier is used once: after the funds of a ride are locked, every
/// further attempt to lock funds under the same identifier is rejected as a
/// duplicate, whoever makes it and with whatever accounts and amount.
pub proof fn lemma_ride_is_initialized_once(
    pre: LedgerView,
    first: InitializeRide,
    ride_id: Seq<char>,
    amount: u64,
    second: InitializeRide,
    other_amount: u64,
)
    requires
        pre.initialize_ride(first, ride_id, amount) is Ok,
    ensures
        pre.initialize_ride(first, ride_id, amount)->Ok_0.initialize_ride(
            second,
            ride_id,
            other_amount,
        ) == Err::<LedgerView, RideError>(RideError::DuplicateRide),
{
}

/// An escrow record's address is used once: where a record lies at the
/// address that the derivation gave, locking is rejected as a duplicate, under
/// whatever identifier.
pub proof fn lemma_record_address_is_used_once(
    pre: LedgerView,
    ctx: InitializeRide,
    ride_id: Seq<char>,
    amount: u64,
    record: Derived,
    vault: Derived,
)
    requires
        record matches Some((key, _)) && pre.rides.dom().contains(key),
    ensures
        pre.lock_ride(ctx, ride_id, amount, record, vault) == Err::<LedgerView, RideError>(
            RideError::DuplicateRide,
        ),
{
}

/// Funds come into the ledger when a wallet is opened with a balance, and in
/// no other way; and funds never leave it. Locking and settlement move value
/// between accounts and neither create nor destroy any: what the wallets and
/// the custody accounts hold together stays the same.
pub proof fn lemma_funds_are_conserved(pre: LedgerView, post: LedgerView)
    requires
        pre.wf(),
        pre.steps_to(post),
    ensures
        forall|key: Seq<u8>, amount: u64|
            #[trigger] pre.open_account(key, amount) == Ok::<LedgerView, RideError>(post)
                ==> post.funds() == pre.funds() + amount,
        (forall|key: Seq<u8>, amount: u64|
            #[trigger] pre.open_account(key, amount) != Ok::<LedgerView, RideError>(post))
            ==> post.funds() == pre.funds(),
{
    assert forall|key: Seq<u8>, amount: u64|
        #[trigger] pre.open_account(key, amount) == Ok::<LedgerView, RideError>(
            post,
        ) implies post.funds() == pre.funds() + amount by {
        lemma_total_insert(pre.wallets, key, amount);
    }
    if forall|key: Seq<u8>, amount: u64|
        #[trigger] pre.open_account(key, amount) != Ok::<LedgerView, RideError>(post) {
        if exists|
            ctx: InitializeRide,
            ride_id: Seq<char>,
            amount: u64,
            record: Derived,
            vault: Derived,
        |
            pre.lock_ride(ctx, ride_id, amount, record, vault) == Ok::<LedgerView, RideError>(
                post,
            ) {
            let (ctx, ride_id, amount, record, vault) = choose|
                ctx: InitializeRide,
                ride_id: Seq<char>,
                amount: u64,
                record: Derived,
                vault: Derived,
            |
                pre.lock_ride(ctx, ride_id, amount, record, vault) == Ok::<
                    LedgerView,
                    RideError,
                >(post);
            lemma_lock_conserves_funds(pre, ctx, ride_id, amount, record, vault);
        } else if exists|ctx: CompleteRide|
            pre.complete_ride(ctx) == Ok::<LedgerView, RideError>(post) {
            let ctx = choose|ctx: CompleteRide|
                pre.complete_ride(ctx) == Ok::<LedgerView, RideError>(post);
            lemma_settlement_conserves_funds(pre, ctx);
        }
    }
}

/// Locking moves the amount from the passenger's wallet into custody: what
/// the wallets hold goes down by the amount, what is in custody goes up by it.
pub proof fn lemma_lock_conserves_funds(
    pre: LedgerView,
    ctx: InitializeRide,
    ride_id: Seq<char>,
    amount: u64,
    record: Derived,
    vault: Derived,
)
    requires
        pre.wf(),
        pre.lock_ride(ctx, ride_id, amount, record, vault) is Ok,
    ensures
        ({
            let post = pre.lock_ride(ctx, ride_id, amount, record, vault)->Ok_0;
            &&& total(post.wallets) + amount == total(pre.wallets)
            &&& total(post.vaults) == total(pre.vaults) + amount
            &&& post.funds() == pre.funds()
        }),
{
    lemma_total_moves(pre.wallets, ctx.passenger.key@, amount);
    lemma_total_insert(pre.vaults, ctx.vault@, amount);
}

/// Settlement moves the locked amount out of custody into the wallets of the
/// platform and the driver: what is in custody goes down by the amount, what
/// the wallets hold goes up by it.
pub proof fn lemma_settlement_conserves_funds(pre: LedgerView, ctx: CompleteRide)
    requires
        pre.wf(),
        pre.complete_ride(ctx) is Ok,
    ensures
        ({
            let post = pre.complete_ride(ctx)->Ok_0;
            let amount = pre.rides[ctx.ride_account@].record.amount;
            &&& total(post.vaults) + amount == total(pre.vaults)
            &&& total(post.wallets) == total(pre.wallets) + amount
            &&& post.funds() == pre.funds()
        }),
{
    let ride = pre.rides[ctx.ride_account@];
    let settlement = Settlement::of(ride.record.amount);
    lemma_total_moves(pre.vaults, ctx.vault@, ride.record.amount);
    lemma_total_moves(pre.wallets, ctx.company_wallet@, settlement.company_fee);
    let fee_paid = credited(pre.wallets, ctx.company_wallet@, settlement.company_fee)->Ok_0;
    lemma_total_moves(fee_paid, ctx.driver@, settlement.driver_amount);
}

/// What locking does: the amount leaves the passenger's wallet and is all
/// that the new custody account holds; the new record is not completed; no
/// other balance changes.
pub proof fn lemma_lock_moves_funds(
    pre: LedgerView,
    ctx: InitializeRide,
    ride_id: Seq<char>,
    amount: u64,
    record: Derived,
    vault: Derived,
)
    requires
        pre.lock_ride(ctx, ride_id, amount, record, vault) is Ok,
    ensures
        ({
            let post = pre.lock_ride(ctx, ride_id, amount, record, vault)->Ok_0;
            &&& pre.balance(ctx.vault@) is None
            &&& post.balance(ctx.vault@) == Some(amount)
            &&& ctx.passenger.signed
            &&& pre.wallets.dom().contains(ctx.passenger.key@)
            &&& post.wallets[ctx.passenger.key@] == pre.wallets[ctx.passenger.key@] - amount
            &&& !pre.rides.dom().contains(ctx.ride_account@)
            &&& post.rides[ctx.ride_account@].record.locked_amount() == amount
            &&& forall|other: Seq<u8>|
                other != ctx.passenger.key@ && other != ctx.vault@ ==> #[trigger] post.balance(
                    other,
                ) == pre.balance(other)
        }),
{
}

/// Escrow records are never removed: whatever operation takes effect, a
/// record that was there is still there, with the parties, the amount, the
/// identifier and the custody account it had, and completed if it was.
pub proof fn lemma_records_persist(pre: LedgerView, post: LedgerView, key: Seq<u8>)
    requires
        pre.steps_to(post),
        pre.rides.dom().contains(key),
    ensures
        post.rides.dom().contains(key),
        post.rides[key].record.passenger == pre.rides[key].record.passenger,
        post.rides[key].record.driver == pre.rides[key].record.driver,
        post.rides[key].record.amount == pre.rides[key].record.amount,
        post.rides[key].record.ride_id == pre.rides[key].record.ride_id,
        post.rides[key].vault == pre.rides[key].vault,
        post.rides[key].bump == pre.rides[key].bump,
        pre.rides[key].record.completed ==> post.rides[key].record.completed,
{
}

/// An escrow record changes once, by settlement: where a record differs
/// after an operation, the operation was the settlement of that ride, and
/// the record is as before but for being completed.
pub proof fn lemma_records_change_only_by_settlement(
    pre: LedgerView,
    post: LedgerView,
    key: Seq<u8>,
)
    requires
        pre.steps_to(post),
        pre.rides.dom().contains(key),
        post.rides[key] != pre.rides[key],
    ensures
        exists|ctx: CompleteRide|
            pre.complete_ride(ctx) == Ok::<LedgerView, RideError>(post) && ctx.ride_account@
                == key,
        !pre.rides[key].record.completed,
        post.rides[key] == pre.rides[key].settled(),
{
    let ctx = choose|ctx: CompleteRide|
        pre.complete_ride(ctx) == Ok::<LedgerView, RideError>(post);
    assert(pre.complete_ride(ctx) == Ok::<LedgerView, RideError>(post) && ctx.ride_account@
        == key);
}

/// Escrow records come from locking and from nothing else: where a record
/// appears, the operation was the locking of that ride's funds.
pub proof fn lemma_records_come_from_locking(pre: LedgerView, post: LedgerView, key: Seq<u8>)
    requires
        pre.steps_to(post),
        !pre.rides.dom().contains(key),
        post.rides.dom().contains(key),
    ensures
        exists|
            ctx: InitializeRide,
            ride_id: Seq<char>,
            amount: u64,
            record: Derived,
            vault: Derived,
        |
            pre.lock_ride(ctx, ride_id, amount, record, vault) == Ok::<LedgerView, RideError>(
                post,
            ) && ctx.ride_account@ == key,
{
    let (ctx, ride_id, amount, record, vault) = choose|
        ctx: InitializeRide,
        ride_id: Seq<char>,
        amount: u64,
        record: Derived,
        vault: Derived,
    |
        pre.lock_ride(ctx, ride_id, amount, record, vault) == Ok::<LedgerView, RideError>(post);
    assert(pre.lock_ride(ctx, ride_id, amount, record, vault) == Ok::<LedgerView, RideError>(post)
        && ctx.ride_account@ == key);
}

/// The configuration record, once created, is never removed or moved, and
/// its admin never changes: whatever operation takes effect, the admin is who
/// it was.
pub proof fn lemma_admin_is_permanent(pre: LedgerView, post: LedgerView)
    requires
        pre.steps_to(post),
        pre.config is Some,
    ensures
        post.config is Some,
        post.config->Some_0.address == pre.config->Some_0.address,
        post.config->Some_0.record.admin == pre.config->Some_0.record.admin,
{
}

/// The fee recipient and the backend authority change only through the
/// admin: where the configuration differs after an operation, the operation
/// was an update of the configuration called by the admin.
pub proof fn lemma_config_changes_only_by_admin(pre: LedgerView, post: LedgerView)
    requires
        pre.steps_to(post),
        pre.config is Some,
        post.config != pre.config,
    ensures
        exists|
            ctx: UpdateConfig,
            company_wallet: Option<Address>,
            backend_authority: Option<Address>,
        |
            pre.update_config(ctx, company_wallet, backend_authority) == Ok::<
                LedgerView,
                RideError,
            >(post) && ctx.admin == Caller::signed_by(pre.config->Some_0.record.admin),
{
    let (ctx, company_wallet, backend_authority) = choose|
        ctx: UpdateConfig,
        company_wallet: Option<Address>,
        backend_authority: Option<Address>,
    |
        pre.update_config(ctx, company_wallet, backend_authority) == Ok::<LedgerView, RideError>(
            post,
        );
    assert(pre.update_config(ctx, company_wallet, backend_authority) == Ok::<
        LedgerView,
        RideError,
    >(post) && ctx.admin == Caller::signed_by(pre.config->Some_0.record.admin));
}

/// Funds leave custody only through settlement by the backend authority:
/// where the balance of a custody account goes down, the operation was the
/// settlement of a ride, called by the backend authority of the
/// configuration, and the payments went to the platform's wallet of the
/// configuration and to the driver of the ride.
pub proof fn lemma_custody_is_released_only_by_settlement(
    pre: LedgerView,
    post: LedgerView,
    vault: Seq<u8>,
)
    requires
        pre.steps_to(post),
        pre.vaults.dom().contains(vault),
        !post.vaults.dom().contains(vault) || post.vaults[vault] < pre.vaults[vault],
    ensures
        exists|ctx: CompleteRide|
            pre.complete_ride(ctx) == Ok::<LedgerView, RideError>(post) && ctx.vault@ == vault
                && pre.config is Some && ctx.authority == Caller::signed_by(
                pre.config->Some_0.record.backend_authority,
            ) && ctx.company_wallet
                == pre.config->Some_0.record.company_wallet && ctx.driver
                == pre.rides[ctx.ride_account@].record.driver,
{
    let ctx = choose|ctx: CompleteRide|
        pre.complete_ride(ctx) == Ok::<LedgerView, RideError>(post);
    assert(pre.complete_ride(ctx) == Ok::<LedgerView, RideError>(post) && ctx.vault@ == vault
        && pre.config is Some && ctx.authority == Caller::signed_by(
        pre.config->Some_0.record.backend_authority,
    ) && ctx.company_wallet == pre.config->Some_0.record.company_wallet && ctx.driver
        == pre.rides[ctx.ride_account@].record.driver);
}

} // verus!
