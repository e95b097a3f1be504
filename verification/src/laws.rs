//! Properties of the vault as a whole, stated over the rules of its
//! operations and proved.
use vstd::prelude::*;

use crate::constants::{MAX_BATCH_SIZE, MIN_LOCK_DURATION_SECS};
use crate::errors::VaultError;
use crate::model::{after_write, EnvView, VaultModel};
use crate::rules::{
    batch_withdraw_refusal, withdraw_batch, emergency_batch, paid_out, after_emergency_release,
    lemma_withdraw_batch_len, after_time_deposit, after_ledger_deposit, after_top_up, after_extend_lock,
    after_batch_withdraw, withdraw_item, emergency_item,
    after_migrate_to_ledger, after_migrate_to_time, after_setting,
    after_cancel, after_emergency_withdraw, after_initialize, after_withdraw, after_withdraw_to,
    admin_refusal, cancel_fits, cancel_penalty, cancel_penalty_of, cancel_refusal, emergency_batch_refusal,
    emergency_refusal, held, held_terms, initialize_refusal, ledger_deposit_refusal,
    migrate_to_ledger_refusal, migrate_to_time_refusal, penalty_receiver, released,
    stored_time_deposit, time_deposit_refusal, time_remaining_of, unlocked,
    withdraw_refusal, deposit_fits, lemma_stored_deposit_inv,
};
use crate::types::{Address, Event, LedgerVaultEntry, Step, Transfer, VaultEntry};

verus! {

/// The total amount of a sequence of transfers.
pub open spec fn total_amount(ts: Seq<Transfer>) -> int
    decreases ts.len(),
{
    if ts.len() == 0 {
        0
    } else {
        total_amount(ts.drop_last()) + ts.last().amount
    }
}

/// Locked funds stay locked: before its unlock time (or ledger) a deposit
/// cannot be withdrawn, to its owner or elsewhere; once the lock has
/// expired, the owner's withdrawal succeeds unless the owner is frozen.
pub proof fn law_withdraw_waits_for_unlock(e: EnvView, depositor: Address, id: u32)
    ensures
        e.storage.deposit_of(depositor, id) matches Some(entry) ==> (withdraw_refusal(e, depositor, id) is None
            <==> (!e.storage.frozen.contains(depositor) && e.now() >= entry.unlock_time)),
        e.storage.deposit_of(depositor, id) is None ==> (e.storage.ledger_deposit_of(depositor, id) matches Some(
            entry,
        ) ==> (withdraw_refusal(e, depositor, id) is None <==> (!e.storage.frozen.contains(depositor)
            && e.seq() >= entry.unlock_ledger))),
        !e.storage.frozen.contains(depositor) && held(e.storage, depositor, id) is Some && !unlocked(
            e,
            depositor,
            id,
        ) ==> withdraw_refusal(e, depositor, id) == Some(VaultError::FundsStillLocked),
{
}

/// A withdrawal pays out exactly the deposit's whole amount, in its token,
/// from the vault to the owner (or to the chosen recipient), and only the
/// owner's authorization is asked for.
pub proof fn law_withdraw_pays_whole_amount(e: EnvView, depositor: Address, id: u32, recipient: Address)
    requires
        withdraw_refusal(e, depositor, id) is None,
    ensures
        ({
            let (token, amount) = held(e.storage, depositor, id).unwrap();
            &&& after_withdraw(e, depositor, id).transfers == e.transfers.push(
                Transfer { token, from: e.contract, to: depositor, amount },
            )
            &&& after_withdraw_to(e, depositor, id, recipient).transfers == e.transfers.push(
                Transfer { token, from: e.contract, to: recipient, amount },
            )
            &&& after_withdraw(e, depositor, id).auths == e.auths.push(depositor)
            &&& after_withdraw_to(e, depositor, id, recipient).auths == e.auths.push(depositor)
        }),
{
}

/// A deposit cannot be paid out twice: once withdrawn, a second withdrawal,
/// a cancellation or an emergency withdrawal of it finds nothing.
pub proof fn law_no_double_withdraw(e: EnvView, depositor: Address, id: u32, admin: Address)
    requires
        e.storage.inv(),
        withdraw_refusal(e, depositor, id) is None,
    ensures
        withdraw_refusal(after_withdraw(e, depositor, id), depositor, id) == Some(VaultError::NoDepositFound),
        cancel_refusal(after_withdraw(e, depositor, id), depositor, id) == Some(VaultError::NoDepositFound),
        emergency_refusal(after_withdraw(e, depositor, id), admin, depositor, id) is Some,
{
    let m = e.storage;
    assert(m.is_active(depositor, id));
    let m1 = if m.deposits.contains_key((depositor, id)) {
        m.remove_deposit(depositor, id)
    } else {
        m.remove_ledger_deposit(depositor, id)
    };
    assert(!m1.deposits.contains_key((depositor, id)));
    assert(!m1.ledger_deposits.contains_key((depositor, id)));
    assert(released(m, depositor, id).deposits == m1.deposits);
    assert(released(m, depositor, id).ledger_deposits == m1.ledger_deposits);
}

/// The admin's emergency withdrawal sends the deposit's whole amount to the
/// depositor, never to the admin (unless the admin is the depositor).
pub proof fn law_emergency_pays_depositor(e: EnvView, admin: Address, depositor: Address, id: u32)
    requires
        emergency_refusal(e, admin, depositor, id) is None,
    ensures
        ({
            let (token, amount) = held(e.storage, depositor, id).unwrap();
            after_emergency_withdraw(e, admin, depositor, id).transfers == e.transfers.push(
                Transfer { token, from: e.contract, to: depositor, amount },
            )
        }),
        admin != depositor ==> forall|i: int|
            e.transfers.len() <= i < after_emergency_withdraw(e, admin, depositor, id).transfers.len()
                ==> #[trigger] after_emergency_withdraw(e, admin, depositor, id).transfers[i].to != admin,
{
}

/// The cancellation penalty is `penalty_bps` of the amount, raised to the
/// minimum fee and capped at the amount: it never exceeds what was locked,
/// and the refund is the rest.
pub proof fn law_cancel_penalty_bounds(amount: i128, penalty_bps: u32, min_fee: i128)
    requires
        amount > 0,
        penalty_bps <= 10_000,
        min_fee >= 0,
    ensures
        0 <= cancel_penalty(amount, penalty_bps, min_fee) <= amount,
        cancel_penalty(amount, penalty_bps, min_fee) >= (amount * penalty_bps) / 10_000,
        cancel_penalty(amount, penalty_bps, min_fee) >= if min_fee <= amount { min_fee as int } else { amount as int },
        min_fee == 0 ==> cancel_penalty(amount, penalty_bps, min_fee) == (amount * penalty_bps) / 10_000,
        penalty_bps == 0 && min_fee == 0 ==> cancel_penalty(amount, penalty_bps, min_fee) == 0,
        penalty_bps == 10_000 ==> cancel_penalty(amount, penalty_bps, min_fee) == amount,
{
    assert(0 <= amount * penalty_bps <= amount * 10_000) by (nonlinear_arith)
        requires
            amount > 0,
            0 <= penalty_bps <= 10_000,
    ;
    assert((amount * penalty_bps) / 10_000 <= amount) by (nonlinear_arith)
        requires
            0 <= amount * penalty_bps <= amount * 10_000,
            amount > 0,
    ;
    if penalty_bps == 10_000 {
        assert((amount * penalty_bps) / 10_000 == amount) by (nonlinear_arith)
            requires
                penalty_bps == 10_000,
        ;
    }
}

/// An early cancellation gives back exactly what was locked: the penalty to
/// the penalty receiver plus the refund to the depositor add up to the
/// deposit's amount, in its token, out of the vault.
pub proof fn law_cancel_conserves_amount(e: EnvView, depositor: Address, id: u32)
    requires
        e.storage.inv(),
        cancel_refusal(e, depositor, id) is None,
        cancel_fits(e.storage, depositor, id),
    ensures
        ({
            let (token, amount) = held(e.storage, depositor, id).unwrap();
            let before = e.transfers;
            let after = after_cancel(e, depositor, id).transfers;
            &&& before.len() <= after.len() <= before.len() + 2
            &&& after.subrange(0, before.len() as int) == before
            &&& total_amount(after) == total_amount(before) + amount
            &&& forall|i: int|
                before.len() <= i < after.len() ==> {
                    &&& (#[trigger] after[i]).token == token
                    &&& after[i].from == e.contract
                    &&& (after[i].to == depositor || after[i].to == penalty_receiver(e.storage, depositor))
                    &&& after[i].amount > 0
                }
        }),
{
    let m = e.storage;
    let (token, amount) = held(m, depositor, id).unwrap();
    let (a2, bps) = held_terms(m, depositor, id);
    assert(a2 == amount);
    assert(m.is_active(depositor, id));
    if m.deposits.contains_key((depositor, id)) {
        assert(m.deposits[(depositor, id)].penalty_bps <= 10_000);
    } else {
        assert(m.ledger_deposits[(depositor, id)].penalty_bps <= 10_000);
    }
    law_cancel_penalty_bounds(amount, bps, m.effective_min_cancel_fee());
    let penalty = cancel_penalty_of(m, depositor, id);
    let refund = amount - penalty;
    let e1 = e.auth(depositor).with_storage(released(m, depositor, id));
    let e2 = if penalty > 0 {
        e1.transfer(token, e.contract, penalty_receiver(m, depositor), penalty as i128)
    } else {
        e1
    };
    let e3 = if refund > 0 {
        e2.transfer(token, e.contract, depositor, refund as i128)
    } else {
        e2
    };
    assert(after_cancel(e, depositor, id).transfers == e3.transfers);
    assert(e1.transfers == e.transfers);
    assert(penalty + refund == amount);
    assert(0 <= penalty <= amount);
    if penalty > 0 {
        assert(e2.transfers.drop_last() =~= e.transfers);
        assert(total_amount(e2.transfers) == total_amount(e.transfers) + penalty);
    } else {
        assert(total_amount(e2.transfers) == total_amount(e.transfers));
    }
    if refund > 0 {
        assert(e3.transfers.drop_last() =~= e2.transfers);
        assert(total_amount(e3.transfers) == total_amount(e2.transfers) + refund);
    } else {
        assert(total_amount(e3.transfers) == total_amount(e2.transfers));
    }
    assert(e3.transfers.subrange(0, e.transfers.len() as int) =~= e.transfers);
    assert forall|i: int| e.transfers.len() <= i < e3.transfers.len() implies {
        &&& (#[trigger] e3.transfers[i]).token == token
        &&& e3.transfers[i].from == e.contract
        &&& (e3.transfers[i].to == depositor || e3.transfers[i].to == penalty_receiver(e.storage, depositor))
        &&& e3.transfers[i].amount > 0
    } by {
        if penalty > 0 && i == e.transfers.len() {
            assert(e3.transfers[i] == e2.transfers[i]);
        }
    }
}

/// Pausing stops only new deposits: while paused every deposit is refused
/// with `ContractPaused`, and whether a withdrawal (single or batched),
/// cancellation or emergency withdrawal is refused does not depend on the
/// pause flag.
pub proof fn law_pause_blocks_only_deposits(
    e: EnvView,
    paused: bool,
    depositor: Address,
    token: Address,
    amount: i128,
    unlock_time: u64,
    unlock_ledger: u32,
    penalty_bps: u32,
    check_frozen: bool,
    admin: Address,
    id: u32,
    batch_len: nat,
)
    ensures
        ({
            let p = e.with_storage(VaultModel { paused, ..e.storage });
            &&& batch_withdraw_refusal(p, depositor, batch_len) == batch_withdraw_refusal(e, depositor, batch_len)
            &&& paused ==> time_deposit_refusal(p, depositor, token, amount, unlock_time, penalty_bps, check_frozen)
                == Some(VaultError::ContractPaused)
            &&& paused ==> ledger_deposit_refusal(p, depositor, token, amount, unlock_ledger, penalty_bps)
                == Some(VaultError::ContractPaused)
            &&& withdraw_refusal(p, depositor, id) == withdraw_refusal(e, depositor, id)
            &&& cancel_refusal(p, depositor, id) == cancel_refusal(e, depositor, id)
            &&& emergency_refusal(p, admin, depositor, id) == emergency_refusal(e, admin, depositor, id)
        }),
{
}

/// A frozen depositor can neither deposit nor withdraw (singly or in a
/// batch) nor cancel (when the vault is not paused, its deposits are refused
/// with `DepositorFrozen`), while the admin's emergency withdrawal ignores
/// the freeze.
pub proof fn law_frozen_depositor_is_stopped(
    e: EnvView,
    depositor: Address,
    token: Address,
    amount: i128,
    unlock_time: u64,
    unlock_ledger: u32,
    penalty_bps: u32,
    admin: Address,
    id: u32,
    batch_len: nat,
)
    requires
        e.storage.frozen.contains(depositor),
    ensures
        batch_withdraw_refusal(e, depositor, batch_len) is Some,
        batch_len <= MAX_BATCH_SIZE ==> batch_withdraw_refusal(e, depositor, batch_len) == Some(
            VaultError::DepositorFrozen,
        ),
        !e.storage.paused ==> time_deposit_refusal(e, depositor, token, amount, unlock_time, penalty_bps, true)
            == Some(VaultError::DepositorFrozen),
        !e.storage.paused ==> ledger_deposit_refusal(e, depositor, token, amount, unlock_ledger, penalty_bps)
            == Some(VaultError::DepositorFrozen),
        withdraw_refusal(e, depositor, id) == Some(VaultError::DepositorFrozen),
        cancel_refusal(e, depositor, id) == Some(VaultError::DepositorFrozen),
        emergency_refusal(e, admin, depositor, id) == emergency_refusal(
            e.with_storage(VaultModel { frozen: e.storage.frozen.remove(depositor), ..e.storage }),
            admin,
            depositor,
            id,
        ),
{
}

/// Freezing a token blocks only new deposits of it: existing deposits are
/// withdrawn, cancelled and released as before.
pub proof fn law_token_freeze_spares_existing(
    e: EnvView,
    token: Address,
    depositor: Address,
    id: u32,
    admin: Address,
    batch_len: nat,
)
    ensures
        ({
            let f = e.with_storage(VaultModel { frozen_tokens: e.storage.frozen_tokens.insert(token), ..e.storage });
            &&& batch_withdraw_refusal(f, depositor, batch_len) == batch_withdraw_refusal(e, depositor, batch_len)
            &&& withdraw_refusal(f, depositor, id) == withdraw_refusal(e, depositor, id)
            &&& cancel_refusal(f, depositor, id) == cancel_refusal(e, depositor, id)
            &&& emergency_refusal(f, admin, depositor, id) == emergency_refusal(e, admin, depositor, id)
        }),
{
}

/// Renouncing is permanent: in an initialized vault without an admin,
/// `initialize` is refused, no nomination is pending (so `accept_admin` is
/// refused too), and every admin operation is refused with `Unauthorized`.
pub proof fn law_renounced_vault_stays_trustless(
    e: EnvView,
    caller: Address,
    depositor: Address,
    id: u32,
    new_unlock_ledger: u32,
    new_unlock_time: u64,
    max_deposit: Option<i128>,
    max_lock_secs: Option<u64>,
    batch_len: nat,
)
    requires
        e.storage.inv(),
        e.storage.initialized,
        e.storage.admin is None,
    ensures
        initialize_refusal(e, max_deposit, max_lock_secs) == Some(VaultError::Unauthorized),
        e.storage.pending_admin is None,
        admin_refusal(e, caller) == Some(VaultError::Unauthorized),
        emergency_refusal(e, caller, depositor, id) == Some(VaultError::Unauthorized),
        emergency_batch_refusal(e, caller, batch_len) == Some(VaultError::Unauthorized),
        migrate_to_ledger_refusal(e, caller, depositor, id, new_unlock_ledger) == Some(VaultError::Unauthorized),
        migrate_to_time_refusal(e, caller, depositor, id, new_unlock_time) == Some(VaultError::Unauthorized),
{
}

/// Once initialized, a vault can never be initialized again; a successful
/// `initialize` leaves it initialized with the given admin.
pub proof fn law_initialize_once(
    e: EnvView,
    admin: Address,
    fee_recipient: Address,
    max_deposit: Option<i128>,
    max_lock_secs: Option<u64>,
    admin2: Address,
    fee2: Address,
    max_deposit2: Option<i128>,
    max_lock_secs2: Option<u64>,
)
    requires
        initialize_refusal(e, max_deposit, max_lock_secs) is None,
    ensures
        after_initialize(e, admin, fee_recipient, max_deposit, max_lock_secs).storage.admin == Some(admin),
        initialize_refusal(
            after_initialize(e, admin, fee_recipient, max_deposit, max_lock_secs),
            max_deposit2,
            max_lock_secs2,
        ) == Some(VaultError::Unauthorized),
{
}

/// Deposit ids are never reused: the id a new deposit receives belongs to no
/// active deposit of the depositor, lies above every id handed out before,
/// and the depositor's counter moves past it.
pub proof fn law_ids_never_reused(m: VaultModel, depositor: Address, entry: VaultEntry)
    requires
        m.inv(),
        deposit_fits(m, depositor),
        entry.depositor == depositor,
        entry.amount > 0,
        entry.penalty_bps <= 10_000,
    ensures
        !m.is_active(depositor, m.counter(depositor)),
        forall|i: u32| m.is_active(depositor, i) ==> i < m.counter(depositor),
        stored_time_deposit(m, depositor, entry).counter(depositor) == m.counter(depositor) + 1,
        m.counters_grow(stored_time_deposit(m, depositor, entry)),
        stored_time_deposit(m, depositor, entry).inv(),
{
    let dummy = LedgerVaultEntry {
        token: entry.token,
        amount: entry.amount,
        unlock_ledger: 0,
        depositor,
        penalty_bps: entry.penalty_bps,
    };
    lemma_stored_deposit_inv(m, depositor, true, entry, dummy);
    assert forall|i: u32| m.is_active(depositor, i) implies i < m.counter(depositor) by {
        if m.deposits.contains_key((depositor, i)) {
        } else {
            assert(m.ledger_deposits.contains_key((depositor, i)));
        }
    }
    assert(!m.deposits.contains_key((depositor, m.counter(depositor))));
    assert(!m.ledger_deposits.contains_key((depositor, m.counter(depositor))));
}

/// The depositor count is the number of addresses holding at least one
/// active deposit: the index lists each such address exactly once.
pub proof fn law_depositor_count_counts_holders(m: VaultModel)
    requires
        m.inv(),
    ensures
        m.depositors.to_set() == Set::new(|a: Address| m.has_active(a)),
        m.depositors.len() == m.depositors.to_set().len(),
{
    assert(m.depositors.to_set() =~= Set::new(|a: Address| m.has_active(a)));
    m.depositors.unique_seq_to_set();
}

/// `time_remaining` reaches 0 exactly when there is nothing left to wait
/// for: the deposit is missing or has unlocked.
pub proof fn law_time_remaining_zero_iff_unlocked(e: EnvView, depositor: Address, id: u32)
    ensures
        time_remaining_of(e, depositor, id) >= 0,
        time_remaining_of(e, depositor, id) == 0 <==> (held(e.storage, depositor, id) is None || unlocked(
            e,
            depositor,
            id,
        )),
{
}

/// An accepted timestamp deposit locks a positive amount within the cap, at
/// a penalty within the cap, for between the minimum and maximum lock
/// durations.
pub proof fn law_accepted_deposit_within_bounds(
    e: EnvView,
    depositor: Address,
    token: Address,
    amount: i128,
    unlock_time: u64,
    penalty_bps: u32,
    check_frozen: bool,
)
    requires
        e.storage.inv(),
        time_deposit_refusal(e, depositor, token, amount, unlock_time, penalty_bps, check_frozen) is None,
    ensures
        0 < amount <= e.storage.effective_max_deposit(),
        penalty_bps <= e.storage.effective_max_penalty_bps() <= 10_000,
        MIN_LOCK_DURATION_SECS <= unlock_time - e.now() <= e.storage.effective_max_lock_secs(),
        !e.storage.paused,
        !e.storage.frozen_tokens.contains(token),
        check_frozen ==> !e.storage.frozen.contains(depositor),
{
}

/// Migrating a deposit to a ledger lock and back to a timestamp lock keeps
/// it under the same id with the same token, amount, owner and penalty: the
/// storage ends as it was but for the new unlock time.
pub proof fn law_migration_round_trip_keeps_terms(
    e: EnvView,
    admin: Address,
    depositor: Address,
    id: u32,
    new_unlock_ledger: u32,
    new_unlock_time: u64,
)
    requires
        e.storage.inv(),
        migrate_to_ledger_refusal(e, admin, depositor, id, new_unlock_ledger) is None,
        new_unlock_time > e.now(),
    ensures
        ({
            let e1 = after_migrate_to_ledger(e, admin, depositor, id, new_unlock_ledger);
            let e2 = after_migrate_to_time(e1, admin, depositor, id, new_unlock_time);
            let entry = e.storage.deposits[(depositor, id)];
            &&& migrate_to_time_refusal(e1, admin, depositor, id, new_unlock_time) is None
            &&& e2.storage == (VaultModel {
                deposits: e.storage.deposits.insert((depositor, id), VaultEntry { unlock_time: new_unlock_time, ..entry }),
                ..e.storage
            })
        }),
{
    let k = (depositor, id);
    let m = e.storage;
    let e1 = after_migrate_to_ledger(e, admin, depositor, id, new_unlock_ledger);
    let e2 = after_migrate_to_time(e1, admin, depositor, id, new_unlock_time);
    let entry = m.deposits[k];
    assert(!m.ledger_deposits.contains_key(k));
    assert(e2.storage.ledger_deposits =~= m.ledger_deposits);
    assert(e2.storage.deposits =~= m.deposits.insert(k, VaultEntry { unlock_time: new_unlock_time, ..entry }));
}

/// Unfreezing undoes freezing: freezing a depositor who was not frozen and
/// then unfreezing them leaves the storage as it was, so their deposits are
/// judged as before.
pub proof fn law_unfreeze_undoes_freeze(
    e: EnvView,
    admin: Address,
    depositor: Address,
    token: Address,
    amount: i128,
    unlock_time: u64,
    penalty_bps: u32,
)
    requires
        !e.storage.frozen.contains(depositor),
    ensures
        ({
            let e1 = after_setting(
                e,
                admin,
                VaultModel { frozen: e.storage.frozen.insert(depositor), ..e.storage },
            ).emit(Event::Frozen { admin, depositor });
            let e2 = after_setting(
                e1,
                admin,
                VaultModel { frozen: e1.storage.frozen.remove(depositor), ..e1.storage },
            ).emit(Event::Unfrozen { admin, depositor });
            &&& e2.storage == e.storage
            &&& time_deposit_refusal(e2, depositor, token, amount, unlock_time, penalty_bps, true)
                == time_deposit_refusal(e, depositor, token, amount, unlock_time, penalty_bps, true)
        }),
{
    assert(e.storage.frozen.insert(depositor).remove(depositor) =~= e.storage.frozen);
    let e1 = after_setting(e, admin, VaultModel { frozen: e.storage.frozen.insert(depositor), ..e.storage }).emit(
        Event::Frozen { admin, depositor },
    );
    let e2 = after_setting(e1, admin, VaultModel { frozen: e1.storage.frozen.remove(depositor), ..e1.storage }).emit(
        Event::Unfrozen { admin, depositor },
    );
    assert(e2.storage =~= e.storage);
}

/// Unpausing undoes pausing: the storage after `pause` and then `unpause`
/// of a vault that was not paused is the storage before.
pub proof fn law_unpause_undoes_pause(e: EnvView, admin: Address)
    requires
        !e.storage.paused,
    ensures
        ({
            let e1 = after_setting(e, admin, VaultModel { paused: true, ..e.storage }).emit(Event::Paused { admin });
            let e2 = after_setting(e1, admin, VaultModel { paused: false, ..e1.storage }).emit(
                Event::Unpaused { admin },
            );
            e2.storage == e.storage
        }),
{
    let e1 = after_setting(e, admin, VaultModel { paused: true, ..e.storage }).emit(Event::Paused { admin });
    let e2 = after_setting(e1, admin, VaultModel { paused: false, ..e1.storage }).emit(Event::Unpaused { admin });
    assert(e2.storage =~= e.storage);
}

/// The admin role changes hands in two steps: a nomination leaves the admin
/// in place, and only the nominee can complete it, after which the nominee
/// is the admin and no nomination is pending.
pub proof fn law_two_step_admin_transfer(e: EnvView, admin: Address, nominee: Address, caller: Address)
    requires
        admin_refusal(e, admin) is None,
        nominee != admin,
    ensures
        ({
            let e1 = after_setting(e, admin, VaultModel { pending_admin: Some(nominee), ..e.storage }).emit(
                Event::AdminTransferInitiated { current_admin: admin, pending_admin: nominee },
            );
            let e2 = after_setting(
                e1,
                nominee,
                VaultModel { admin: Some(nominee), pending_admin: None, ..e1.storage },
            ).emit(Event::AdminTransferAccepted { new_admin: nominee });
            &&& e1.storage.admin == Some(admin)
            &&& (e1.storage.pending_admin == Some(caller) <==> caller == nominee)
            &&& e2.storage.admin == Some(nominee)
            &&& e2.storage.pending_admin is None
            &&& admin_refusal(e2, admin) == Some(VaultError::Unauthorized)
        }),
{
}

/// A batch withdrawal reports every id, in order: item `i` names the
/// depositor and the `i`-th id, and succeeds exactly when that deposit is
/// still held and unlocked once the earlier items are done; a success pays
/// the deposit's whole amount in its token to the depositor, a failure
/// reports amount 0 and changes nothing.
pub proof fn law_batch_withdraw_reports_each_item(e: EnvView, depositor: Address, ids: Seq<u32>)
    ensures
        withdraw_batch(e, depositor, ids).1.len() == ids.len(),
        forall|i: int|
            0 <= i < ids.len() ==> {
                let before = #[trigger] withdraw_batch(e, depositor, ids.take(i)).0;
                let after = withdraw_batch(e, depositor, ids.take(i + 1)).0;
                let r = withdraw_batch(e, depositor, ids).1[i];
                let id = ids[i];
                &&& r.depositor == depositor
                &&& r.deposit_id == id
                &&& r.success == (held(before.storage, depositor, id) is Some && unlocked(before, depositor, id))
                &&& r.success ==> r.amount == held(before.storage, depositor, id).unwrap().1
                    && r.token == held(before.storage, depositor, id).unwrap().0
                    && after == paid_out(before, depositor, id, depositor)
                &&& !r.success ==> r.amount == 0 && after == before
            },
    decreases ids.len(),
{
    lemma_withdraw_batch_len(e, depositor, ids);
    if ids.len() > 0 {
        let n = ids.len() - 1;
        law_batch_withdraw_reports_each_item(e, depositor, ids.drop_last());
        assert forall|i: int| 0 <= i < ids.len() implies {
            let before = #[trigger] withdraw_batch(e, depositor, ids.take(i)).0;
            let after = withdraw_batch(e, depositor, ids.take(i + 1)).0;
            let r = withdraw_batch(e, depositor, ids).1[i];
            let id = ids[i];
            &&& r.depositor == depositor
            &&& r.deposit_id == id
            &&& r.success == (held(before.storage, depositor, id) is Some && unlocked(before, depositor, id))
            &&& r.success ==> r.amount == held(before.storage, depositor, id).unwrap().1
                && r.token == held(before.storage, depositor, id).unwrap().0
                && after == paid_out(before, depositor, id, depositor)
            &&& !r.success ==> r.amount == 0 && after == before
        } by {
            if i < n {
                assert(ids.drop_last().take(i) =~= ids.take(i));
                assert(ids.drop_last().take(i + 1) =~= ids.take(i + 1));
                assert(ids.drop_last()[i] == ids[i]);
            } else {
                assert(ids.take(i) =~= ids.drop_last());
                assert(ids.take(i + 1) =~= ids);
                assert(ids.take(i + 1).drop_last() =~= ids.drop_last());
            }
        }
    }
}

/// An emergency batch reports every item, in order: item `i` names the
/// `i`-th (depositor, id) pair and succeeds exactly when that deposit is
/// still held once the earlier items are done; a success releases the
/// deposit's whole amount in its token to its depositor, a failure reports
/// amount 0 and changes nothing.
pub proof fn law_emergency_batch_reports_each_item(e: EnvView, admin: Address, items: Seq<(Address, u32)>)
    ensures
        emergency_batch(e, admin, items).1.len() == items.len(),
        forall|i: int|
            0 <= i < items.len() ==> {
                let before = #[trigger] emergency_batch(e, admin, items.take(i)).0;
                let after = emergency_batch(e, admin, items.take(i + 1)).0;
                let r = emergency_batch(e, admin, items).1[i];
                let (depositor, id) = items[i];
                &&& r.depositor == depositor
                &&& r.deposit_id == id
                &&& r.success == held(before.storage, depositor, id) is Some
                &&& r.success ==> r.amount == held(before.storage, depositor, id).unwrap().1
                    && r.token == held(before.storage, depositor, id).unwrap().0
                    && after == after_emergency_release(before, admin, depositor, id)
                &&& !r.success ==> r.amount == 0 && after == before
            },
    decreases items.len(),
{
    if items.len() > 0 {
        let n = items.len() - 1;
        law_emergency_batch_reports_each_item(e, admin, items.drop_last());
        assert forall|i: int| 0 <= i < items.len() implies {
            let before = #[trigger] emergency_batch(e, admin, items.take(i)).0;
            let after = emergency_batch(e, admin, items.take(i + 1)).0;
            let r = emergency_batch(e, admin, items).1[i];
            let (depositor, id) = items[i];
            &&& r.depositor == depositor
            &&& r.deposit_id == id
            &&& r.success == held(before.storage, depositor, id) is Some
            &&& r.success ==> r.amount == held(before.storage, depositor, id).unwrap().1
                && r.token == held(before.storage, depositor, id).unwrap().0
                && after == after_emergency_release(before, admin, depositor, id)
            &&& !r.success ==> r.amount == 0 && after == before
        } by {
            if i < n {
                assert(items.drop_last().take(i) =~= items.take(i));
                assert(items.drop_last().take(i + 1) =~= items.take(i + 1));
                assert(items.drop_last()[i] == items[i]);
            } else {
                assert(items.take(i) =~= items.drop_last());
                assert(items.take(i + 1) =~= items);
                assert(items.take(i + 1).drop_last() =~= items.drop_last());
            }
        }
    }
}

/// `j2` continues `j1`: it starts with every step of `j1`, in order.
pub open spec fn continues(j1: Seq<Step>, j2: Seq<Step>) -> bool {
    j2.len() >= j1.len() && j2.subrange(0, j1.len() as int) == j1
}

/// The steps `e2` added to the journal of `e`, when it continues it.
pub open spec fn new_steps(e: EnvView, e2: EnvView) -> Seq<Step> {
    e2.journal.subrange(e.journal.len() as int, e2.journal.len() as int)
}

/// Checks, then effects, then interactions: every withdrawal (by the owner,
/// to a recipient, or the admin's emergency release) asks for the caller's
/// authorization first, then clears the deposit from storage, and only then
/// moves the tokens out, before announcing it.
pub proof fn law_withdrawal_clears_storage_before_paying(
    e: EnvView,
    depositor: Address,
    id: u32,
    recipient: Address,
    admin: Address,
)
    requires
        held(e.storage, depositor, id) is Some,
    ensures
        after_withdraw(e, depositor, id).journal == e.journal + seq![Step::Auth, Step::Write, Step::Transfer, Step::Event],
        after_withdraw_to(e, depositor, id, recipient).journal == e.journal + seq![
            Step::Auth,
            Step::Write,
            Step::Transfer,
            Step::Event,
        ],
        after_emergency_withdraw(e, admin, depositor, id).journal == e.journal + seq![
            Step::Auth,
            Step::Write,
            Step::Transfer,
            Step::Event,
        ],
        forall|r: Address| #[trigger] paid_out(e, depositor, id, r).journal == after_write(e.journal).push(Step::Transfer),
{
    let expected = e.journal + seq![Step::Auth, Step::Write, Step::Transfer, Step::Event];
    assert(after_withdraw(e, depositor, id).journal =~= expected);
    assert(after_withdraw_to(e, depositor, id, recipient).journal =~= expected);
    assert(after_emergency_withdraw(e, admin, depositor, id).journal =~= expected);
}

/// An early cancellation asks for the depositor's authorization first, then
/// clears the deposit from storage, and only then pays out the penalty and
/// the refund (each only when positive), before announcing it.
pub proof fn law_cancel_clears_storage_before_paying(e: EnvView, depositor: Address, id: u32)
    requires
        held(e.storage, depositor, id) is Some,
    ensures
        ({
            let j = after_cancel(e, depositor, id).journal;
            let n = e.journal.len() as int;
            &&& continues(e.journal, j)
            &&& j.len() >= n + 3
            &&& j[n] == Step::Auth
            &&& j[n + 1] == Step::Write
            &&& j.last() == Step::Event
            &&& forall|i: int| n + 2 <= i < j.len() - 1 ==> #[trigger] j[i] == Step::Transfer
        }),
{
    let j = after_cancel(e, depositor, id).journal;
    let n = e.journal.len() as int;
    let base = e.journal.push(Step::Auth).push(Step::Write);
    assert(base.subrange(0, n) =~= e.journal);
    if j.len() == n + 3 {
        assert(j =~= base.push(Step::Event));
    } else if j.len() == n + 4 {
        assert(j =~= base.push(Step::Transfer).push(Step::Event));
    } else {
        assert(j =~= base.push(Step::Transfer).push(Step::Transfer).push(Step::Event));
    }
    assert(j.subrange(0, n) =~= e.journal);
}

/// A deposit, and a top-up, asks for the payer's authorization first, then
/// pulls the tokens into the vault, then records the deposit, then
/// announces it.
pub proof fn law_deposit_journal(
    e: EnvView,
    payer: Address,
    depositor: Address,
    token: Address,
    amount: i128,
    unlock_time: u64,
    unlock_ledger: u32,
    penalty_bps: u32,
    id: u32,
)
    ensures
        after_time_deposit(e, payer, depositor, token, amount, unlock_time, penalty_bps).journal == e.journal
            + seq![Step::Auth, Step::Transfer, Step::Write, Step::Event],
        after_ledger_deposit(e, depositor, token, amount, unlock_ledger, penalty_bps).journal == e.journal
            + seq![Step::Auth, Step::Transfer, Step::Write, Step::Event],
        after_top_up(e, depositor, id, amount).journal == e.journal + seq![
            Step::Auth,
            Step::Transfer,
            Step::Write,
            Step::Event,
        ],
{
    let expected = e.journal + seq![Step::Auth, Step::Transfer, Step::Write, Step::Event];
    assert(after_time_deposit(e, payer, depositor, token, amount, unlock_time, penalty_bps).journal =~= expected);
    assert(after_ledger_deposit(e, depositor, token, amount, unlock_ledger, penalty_bps).journal =~= expected);
    assert(after_top_up(e, depositor, id, amount).journal =~= expected);
}

/// Authorization first: every call that changes settings, and every other
/// single-deposit call, asks for its caller's authorization before it writes
/// storage, moves tokens or announces anything; a refused call asks for that
/// authorization and nothing else.
pub proof fn law_authorization_first(
    e: EnvView,
    caller: Address,
    m: VaultModel,
    ev: Event,
    fee_recipient: Address,
    max_deposit: Option<i128>,
    max_lock_secs: Option<u64>,
    depositor: Address,
    id: u32,
    new_unlock_time: u64,
    new_unlock_ledger: u32,
)
    ensures
        new_steps(e, e.auth(caller)) == seq![Step::Auth],
        continues(e.journal, after_setting(e, caller, m).journal),
        new_steps(e, after_setting(e, caller, m)) == seq![Step::Auth, Step::Write],
        new_steps(e, after_setting(e, caller, m).emit(ev)) == seq![Step::Auth, Step::Write, Step::Event],
        new_steps(e, after_initialize(e, caller, fee_recipient, max_deposit, max_lock_secs)) == seq![
            Step::Auth,
            Step::Write,
        ],
        new_steps(e, after_extend_lock(e, depositor, id, new_unlock_time)) == seq![
            Step::Auth,
            Step::Write,
            Step::Event,
        ],
        new_steps(e, after_migrate_to_ledger(e, caller, depositor, id, new_unlock_ledger)) == seq![
            Step::Auth,
            Step::Write,
            Step::Event,
        ],
        new_steps(e, after_migrate_to_time(e, caller, depositor, id, new_unlock_time)) == seq![
            Step::Auth,
            Step::Write,
            Step::Event,
        ],
{
    assert(new_steps(e, e.auth(caller)) =~= seq![Step::Auth]);
    assert(after_setting(e, caller, m).journal.subrange(0, e.journal.len() as int) =~= e.journal);
    assert(new_steps(e, after_setting(e, caller, m)) =~= seq![Step::Auth, Step::Write]);
    assert(new_steps(e, after_setting(e, caller, m).emit(ev)) =~= seq![Step::Auth, Step::Write, Step::Event]);
    assert(new_steps(e, after_initialize(e, caller, fee_recipient, max_deposit, max_lock_secs)) =~= seq![
        Step::Auth,
        Step::Write,
    ]);
    assert(new_steps(e, after_extend_lock(e, depositor, id, new_unlock_time)) =~= seq![
        Step::Auth,
        Step::Write,
        Step::Event,
    ]);
    assert(new_steps(e, after_migrate_to_ledger(e, caller, depositor, id, new_unlock_ledger)) =~= seq![
        Step::Auth,
        Step::Write,
        Step::Event,
    ]);
    assert(new_steps(e, after_migrate_to_time(e, caller, depositor, id, new_unlock_time)) =~= seq![
        Step::Auth,
        Step::Write,
        Step::Event,
    ]);
}

/// The items of a batch withdrawal only add to the journal: each paid item
/// writes storage and then transfers.
pub proof fn lemma_withdraw_batch_continues(e: EnvView, depositor: Address, ids: Seq<u32>)
    ensures
        continues(e.journal, withdraw_batch(e, depositor, ids).0.journal),
    decreases ids.len(),
{
    if ids.len() == 0 {
        assert(e.journal.subrange(0, e.journal.len() as int) =~= e.journal);
    } else {
        lemma_withdraw_batch_continues(e, depositor, ids.drop_last());
        let e1 = withdraw_batch(e, depositor, ids.drop_last()).0;
        let e2 = withdraw_item(e1, depositor, ids.last()).0;
        assert(withdraw_batch(e, depositor, ids).0 == e2);
        assert(e2.journal.len() >= e1.journal.len());
        assert(e2.journal.subrange(0, e1.journal.len() as int) =~= e1.journal);
        assert(e2.journal.subrange(0, e.journal.len() as int) =~= e1.journal.subrange(0, e.journal.len() as int));
        assert(e2.journal.subrange(0, e.journal.len() as int) =~= e.journal);
    }
}

/// The items of an emergency batch only add to the journal.
pub proof fn lemma_emergency_batch_continues(e: EnvView, admin: Address, items: Seq<(Address, u32)>)
    ensures
        continues(e.journal, emergency_batch(e, admin, items).0.journal),
    decreases items.len(),
{
    if items.len() == 0 {
        assert(e.journal.subrange(0, e.journal.len() as int) =~= e.journal);
    } else {
        lemma_emergency_batch_continues(e, admin, items.drop_last());
        let e1 = emergency_batch(e, admin, items.drop_last()).0;
        let e2 = emergency_item(e1, admin, items.last().0, items.last().1).0;
        assert(emergency_batch(e, admin, items).0 == e2);
        assert(e2.journal.len() >= e1.journal.len());
        assert(e2.journal.subrange(0, e1.journal.len() as int) =~= e1.journal);
        assert(e2.journal.subrange(0, e.journal.len() as int) =~= e1.journal.subrange(0, e.journal.len() as int));
        assert(e2.journal.subrange(0, e.journal.len() as int) =~= e.journal);
    }
}

/// Authorization first, for batches: a batch withdrawal, and the admin's
/// emergency batch, ask for the caller's authorization before any item is
/// handled.
pub proof fn law_batches_ask_authorization_first(
    e: EnvView,
    depositor: Address,
    ids: Seq<u32>,
    admin: Address,
    items: Seq<(Address, u32)>,
)
    ensures
        continues(e.journal.push(Step::Auth), after_batch_withdraw(e, depositor, ids).journal),
        continues(e.journal.push(Step::Auth), emergency_batch(e.auth(admin), admin, items).0.journal),
{
    lemma_withdraw_batch_continues(e.auth(depositor), depositor, ids);
    let e1 = withdraw_batch(e.auth(depositor), depositor, ids).0;
    let j = after_batch_withdraw(e, depositor, ids).journal;
    let k = e.journal.len() as int + 1;
    assert(j.subrange(0, k) =~= e1.journal.subrange(0, k));
    lemma_emergency_batch_continues(e.auth(admin), admin, items);
}

} // verus!
