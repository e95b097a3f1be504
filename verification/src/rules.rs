//! The rules of each vault operation, as functions of the environment before
//! the call: when it is refused and with which error, and what it leaves
//! behind when it succeeds. The contract's entry points are proved against
//! these.
use vstd::prelude::*;

use crate::constants::{LEDGER_SECONDS, MAX_BATCH_SIZE, MIN_LOCK_DURATION_SECS};
use crate::errors::VaultError;
use crate::model::{EnvView, VaultModel};
use crate::types::{Address, Event, LedgerVaultEntry, VaultEntry, VaultInfo, WithdrawResult};

verus! {

// ----------------------------------------------------------------
//  Deposits
// ----------------------------------------------------------------

/// The lock ceiling expressed in ledgers: the ceiling in seconds divided by
/// `LEDGER_SECONDS`, rounded down.
pub open spec fn max_lock_ledgers(m: VaultModel) -> u64 {
    m.effective_max_lock_secs() / LEDGER_SECONDS
}

/// The lock floor expressed in ledgers.
pub open spec fn min_lock_ledgers() -> u32 {
    (MIN_LOCK_DURATION_SECS / LEDGER_SECONDS) as u32
}

/// The checks every new deposit passes before the lock itself is examined,
/// in the order they are made. `check_frozen` is false for `deposit_for`,
/// which does not look at the beneficiary's freeze flag.
pub open spec fn common_deposit_refusal(
    m: VaultModel,
    depositor: Address,
    token: Address,
    amount: i128,
    penalty_bps: u32,
    check_frozen: bool,
) -> Option<VaultError> {
    if m.paused {
        Some(VaultError::ContractPaused)
    } else if check_frozen && m.frozen.contains(depositor) {
        Some(VaultError::DepositorFrozen)
    } else if m.frozen_tokens.contains(token) {
        Some(VaultError::TokenFrozen)
    } else if amount <= 0 {
        Some(VaultError::InvalidAmount)
    } else if amount > m.effective_max_deposit() {
        Some(VaultError::AmountTooLarge)
    } else if penalty_bps > m.effective_max_penalty_bps() {
        Some(VaultError::InvalidPenaltyBps)
    } else {
        None
    }
}

/// Why a timestamp-locked deposit is refused, if it is.
pub open spec fn time_deposit_refusal(
    e: EnvView,
    depositor: Address,
    token: Address,
    amount: i128,
    unlock_time: u64,
    penalty_bps: u32,
    check_frozen: bool,
) -> Option<VaultError> {
    let m = e.storage;
    let common = common_deposit_refusal(m, depositor, token, amount, penalty_bps, check_frozen);
    if common is Some {
        common
    } else if unlock_time <= e.now() {
        Some(VaultError::UnlockTimeNotInFuture)
    } else if unlock_time - e.now() > m.effective_max_lock_secs() {
        Some(VaultError::LockDurationTooLong)
    } else if unlock_time - e.now() < MIN_LOCK_DURATION_SECS {
        Some(VaultError::LockDurationTooShort)
    } else {
        None
    }
}

/// Why a ledger-locked deposit is refused, if it is.
pub open spec fn ledger_deposit_refusal(
    e: EnvView,
    depositor: Address,
    token: Address,
    amount: i128,
    unlock_ledger: u32,
    penalty_bps: u32,
) -> Option<VaultError> {
    let m = e.storage;
    let common = common_deposit_refusal(m, depositor, token, amount, penalty_bps, true);
    if common is Some {
        common
    } else if unlock_ledger <= e.seq() {
        Some(VaultError::UnlockTimeNotInFuture)
    } else if unlock_ledger - e.seq() > max_lock_ledgers(m) {
        Some(VaultError::LockDurationTooLong)
    } else if unlock_ledger - e.seq() < min_lock_ledgers() {
        Some(VaultError::LockDurationTooShort)
    } else {
        None
    }
}

/// A new deposit of `depositor` fits the counters: its id can be handed out
/// and, if `depositor` is not listed yet, the depositor index has room.
pub open spec fn deposit_fits(m: VaultModel, depositor: Address) -> bool {
    &&& m.counter(depositor) < u32::MAX
    &&& (!m.depositors.contains(depositor) ==> m.depositors.len() < u32::MAX)
}

/// The storage after `depositor`'s next id receives the timestamp lock `entry`.
pub open spec fn stored_time_deposit(m: VaultModel, depositor: Address, entry: VaultEntry) -> VaultModel {
    let id = m.counter(depositor);
    m.set_counter(depositor, (id + 1) as u32).insert_deposit(depositor, id, entry).add_depositor(depositor)
}

/// The storage after `depositor`'s next id receives the ledger lock `entry`.
pub open spec fn stored_ledger_deposit(m: VaultModel, depositor: Address, entry: LedgerVaultEntry) -> VaultModel {
    let id = m.counter(depositor);
    m.set_counter(depositor, (id + 1) as u32).insert_ledger_deposit(depositor, id, entry).add_depositor(
        depositor,
    )
}

/// The environment after a timestamp-locked deposit paid by `payer` for
/// `depositor`: `payer` authorizes, the amount moves from `payer` to the
/// vault, the entry is stored under the depositor's next id, the depositor is
/// listed and the deposit is announced.
pub open spec fn after_time_deposit(
    e: EnvView,
    payer: Address,
    depositor: Address,
    token: Address,
    amount: i128,
    unlock_time: u64,
    penalty_bps: u32,
) -> EnvView {
    let id = e.storage.counter(depositor);
    let entry = VaultEntry { token, amount, unlock_time, depositor, penalty_bps };
    e.auth(payer).transfer(token, payer, e.contract, amount).with_storage(
        stored_time_deposit(e.storage, depositor, entry),
    ).emit(Event::Deposit { depositor, token, deposit_id: id, amount, unlock_at: unlock_time })
}

/// The environment after a ledger-locked deposit by `depositor`.
pub open spec fn after_ledger_deposit(
    e: EnvView,
    depositor: Address,
    token: Address,
    amount: i128,
    unlock_ledger: u32,
    penalty_bps: u32,
) -> EnvView {
    let id = e.storage.counter(depositor);
    let entry = LedgerVaultEntry { token, amount, unlock_ledger, depositor, penalty_bps };
    e.auth(depositor).transfer(token, depositor, e.contract, amount).with_storage(
        stored_ledger_deposit(e.storage, depositor, entry),
    ).emit(
        Event::Deposit { depositor, token, deposit_id: id, amount, unlock_at: unlock_ledger as u64 },
    )
}

// ----------------------------------------------------------------
//  Releasing a deposit (withdrawals, emergency withdrawals)
// ----------------------------------------------------------------

/// The token and amount held by deposit `(depositor, id)`, whichever kind of
/// lock it has (a timestamp lock is looked up first).
pub open spec fn held(m: VaultModel, depositor: Address, id: u32) -> Option<(Address, i128)> {
    match m.deposit_of(depositor, id) {
        Some(entry) => Some((entry.token, entry.amount)),
        None => match m.ledger_deposit_of(depositor, id) {
            Some(entry) => Some((entry.token, entry.amount)),
            None => None,
        },
    }
}

/// Whether deposit `(depositor, id)` has reached its unlock time or ledger.
pub open spec fn unlocked(e: EnvView, depositor: Address, id: u32) -> bool {
    match e.storage.deposit_of(depositor, id) {
        Some(entry) => e.now() >= entry.unlock_time,
        None => match e.storage.ledger_deposit_of(depositor, id) {
            Some(entry) => e.seq() >= entry.unlock_ledger,
            None => false,
        },
    }
}

/// The storage once deposit `(depositor, id)` is removed and, if it was the
/// depositor's last, the depositor is unlisted.
pub open spec fn released(m: VaultModel, depositor: Address, id: u32) -> VaultModel {
    if m.deposits.contains_key((depositor, id)) {
        m.remove_deposit(depositor, id).remove_depositor(depositor)
    } else {
        m.remove_ledger_deposit(depositor, id).remove_depositor(depositor)
    }
}

/// Why the owner's withdrawal of `(depositor, id)` is refused, if it is.
pub open spec fn withdraw_refusal(e: EnvView, depositor: Address, id: u32) -> Option<VaultError> {
    if e.storage.frozen.contains(depositor) {
        Some(VaultError::DepositorFrozen)
    } else if held(e.storage, depositor, id) is None {
        Some(VaultError::NoDepositFound)
    } else if !unlocked(e, depositor, id) {
        Some(VaultError::FundsStillLocked)
    } else {
        None
    }
}

/// The environment after deposit `(depositor, id)` is paid out to
/// `recipient`: it leaves storage (and the depositor the index, if it was
/// the last) and its whole amount moves from the vault to `recipient`.
pub open spec fn paid_out(e: EnvView, depositor: Address, id: u32, recipient: Address) -> EnvView {
    let (token, amount) = held(e.storage, depositor, id).unwrap();
    e.with_storage(released(e.storage, depositor, id)).transfer(token, e.contract, recipient, amount)
}

/// The environment after a successful `withdraw`.
pub open spec fn after_withdraw(e: EnvView, depositor: Address, id: u32) -> EnvView {
    let (token, amount) = held(e.storage, depositor, id).unwrap();
    paid_out(e.auth(depositor), depositor, id, depositor).emit(
        Event::Withdraw { depositor, token, deposit_id: id, amount },
    )
}

/// The environment after a successful `withdraw_to`.
pub open spec fn after_withdraw_to(e: EnvView, depositor: Address, id: u32, recipient: Address) -> EnvView {
    let (token, amount) = held(e.storage, depositor, id).unwrap();
    paid_out(e.auth(depositor), depositor, id, recipient).emit(
        Event::WithdrawTo { depositor, recipient, token, deposit_id: id, amount },
    )
}

/// Why an emergency withdrawal is refused, if it is.
pub open spec fn emergency_refusal(e: EnvView, admin: Address, depositor: Address, id: u32) -> Option<VaultError> {
    if e.storage.admin != Some(admin) {
        Some(VaultError::Unauthorized)
    } else if held(e.storage, depositor, id) is None {
        Some(VaultError::NoDepositFound)
    } else {
        None
    }
}

/// The environment after the admin releases `(depositor, id)` early: the
/// funds go back to the depositor, never to the admin.
pub open spec fn after_emergency_release(e: EnvView, admin: Address, depositor: Address, id: u32) -> EnvView {
    let (token, amount) = held(e.storage, depositor, id).unwrap();
    paid_out(e, depositor, id, depositor).emit(
        Event::EmergencyWithdraw { admin, depositor, token, deposit_id: id, amount },
    )
}

// ----------------------------------------------------------------
//  Cancellation
// ----------------------------------------------------------------

/// The penalty kept on an early cancellation: `penalty_bps` of the amount,
/// at least the minimum fee, at most the whole amount.
pub open spec fn cancel_penalty(amount: i128, penalty_bps: u32, min_fee: i128) -> int {
    let bps_penalty = (amount * penalty_bps) / 10_000;
    let at_least = if bps_penalty >= min_fee { bps_penalty } else { min_fee as int };
    if at_least <= amount { at_least } else { amount as int }
}

/// The amount and penalty rate of deposit `(depositor, id)`, whichever kind
/// of lock it has.
pub open spec fn held_terms(m: VaultModel, depositor: Address, id: u32) -> (i128, u32) {
    match m.deposit_of(depositor, id) {
        Some(entry) => (entry.amount, entry.penalty_bps),
        None => match m.ledger_deposit_of(depositor, id) {
            Some(entry) => (entry.amount, entry.penalty_bps),
            None => (0, 0),
        },
    }
}

/// Why the cancellation of `(depositor, id)` is refused, if it is.
pub open spec fn cancel_refusal(e: EnvView, depositor: Address, id: u32) -> Option<VaultError> {
    if e.storage.frozen.contains(depositor) {
        Some(VaultError::DepositorFrozen)
    } else if held(e.storage, depositor, id) is None {
        Some(VaultError::NoDepositFound)
    } else if unlocked(e, depositor, id) {
        Some(VaultError::FundsAlreadyUnlocked)
    } else {
        None
    }
}

/// The penalty the cancellation of `(depositor, id)` keeps.
pub open spec fn cancel_penalty_of(m: VaultModel, depositor: Address, id: u32) -> int {
    let (amount, bps) = held_terms(m, depositor, id);
    cancel_penalty(amount, bps, m.effective_min_cancel_fee())
}

/// Where cancellation penalties go: the fee recipient, or the depositor when
/// none is set.
pub open spec fn penalty_receiver(m: VaultModel, depositor: Address) -> Address {
    match m.fee_recipient {
        Some(r) => r,
        None => depositor,
    }
}

/// The environment after the early cancellation of `(depositor, id)`: the
/// deposit leaves storage, the penalty (if positive) goes to the penalty
/// receiver and the rest (if positive) back to the depositor.
pub open spec fn after_cancel(e: EnvView, depositor: Address, id: u32) -> EnvView {
    let m = e.storage;
    let (token, amount) = held(m, depositor, id).unwrap();
    let penalty = cancel_penalty_of(m, depositor, id);
    let refund = amount - penalty;
    let e1 = e.auth(depositor).with_storage(released(m, depositor, id));
    let e2 = if penalty > 0 {
        e1.transfer(token, e.contract, penalty_receiver(m, depositor), penalty as i128)
    } else {
        e1
    };
    let e3 = if refund > 0 {
        e2.transfer(token, e.contract, depositor, refund as i128)
    } else {
        e2
    };
    e3.emit(Event::DepositCancelled { depositor, token, amount, penalty: penalty as i128 })
}

// ----------------------------------------------------------------
//  Initialization
// ----------------------------------------------------------------

/// Why `initialize` is refused, if it is: a vault is initialized once, and
/// configured limits must be positive.
pub open spec fn initialize_refusal(e: EnvView, max_deposit: Option<i128>, max_lock_secs: Option<u64>) -> Option<VaultError> {
    if e.storage.initialized {
        Some(VaultError::Unauthorized)
    } else if max_deposit matches Some(v) && v <= 0 {
        Some(VaultError::InvalidAmount)
    } else if max_lock_secs == Some(0u64) {
        Some(VaultError::LockDurationTooLong)
    } else {
        None
    }
}

/// The environment after `initialize`.
pub open spec fn after_initialize(
    e: EnvView,
    admin: Address,
    fee_recipient: Address,
    max_deposit: Option<i128>,
    max_lock_secs: Option<u64>,
) -> EnvView {
    let m = e.storage;
    e.auth(admin).with_storage(
        VaultModel {
            admin: Some(admin),
            initialized: true,
            fee_recipient: Some(fee_recipient),
            max_deposit: if max_deposit is Some { max_deposit } else { m.max_deposit },
            max_lock_secs: if max_lock_secs is Some { max_lock_secs } else { m.max_lock_secs },
            ..m
        },
    )
}

/// The amount times the penalty rate of `(depositor, id)` fits in an `i128`.
pub open spec fn cancel_fits(m: VaultModel, depositor: Address, id: u32) -> bool {
    let (amount, bps) = held_terms(m, depositor, id);
    amount * bps <= i128::MAX
}

/// The environment after a successful `emergency_withdraw`.
pub open spec fn after_emergency_withdraw(e: EnvView, admin: Address, depositor: Address, id: u32) -> EnvView {
    after_emergency_release(e.auth(admin), admin, depositor, id)
}

// ----------------------------------------------------------------
//  Batches
// ----------------------------------------------------------------

/// One item of an emergency batch: a held deposit is released back to its
/// depositor; a missing one is reported as a failure.
pub open spec fn emergency_item(e: EnvView, admin: Address, depositor: Address, id: u32) -> (EnvView, WithdrawResult) {
    match held(e.storage, depositor, id) {
        Some((token, amount)) => (
            after_emergency_release(e, admin, depositor, id),
            WithdrawResult { depositor, deposit_id: id, success: true, amount, token },
        ),
        None => (e, WithdrawResult { depositor, deposit_id: id, success: false, amount: 0, token: depositor }),
    }
}

/// The items of an emergency batch, handled in order.
pub open spec fn emergency_batch(e: EnvView, admin: Address, items: Seq<(Address, u32)>) -> (EnvView, Seq<WithdrawResult>)
    decreases items.len(),
{
    if items.len() == 0 {
        (e, Seq::empty())
    } else {
        let (e1, rs) = emergency_batch(e, admin, items.drop_last());
        let (e2, r) = emergency_item(e1, admin, items.last().0, items.last().1);
        (e2, rs.push(r))
    }
}

/// Why an emergency batch is refused, if it is.
pub open spec fn emergency_batch_refusal(e: EnvView, admin: Address, len: nat) -> Option<VaultError> {
    if e.storage.admin != Some(admin) {
        Some(VaultError::Unauthorized)
    } else if len > MAX_BATCH_SIZE {
        Some(VaultError::BatchTooLarge)
    } else {
        None
    }
}

/// Why a depositor's batch withdrawal of `len` ids is refused, if it is: an
/// oversized batch, or a frozen depositor (who cannot withdraw at all).
pub open spec fn batch_withdraw_refusal(e: EnvView, depositor: Address, len: nat) -> Option<VaultError> {
    if len > MAX_BATCH_SIZE {
        Some(VaultError::BatchTooLarge)
    } else if e.storage.frozen.contains(depositor) {
        Some(VaultError::DepositorFrozen)
    } else {
        None
    }
}

/// One item of a depositor's batch withdrawal: an unlocked deposit is paid
/// out to its depositor; a locked or missing one is reported as a failure
/// (with the deposit's token, or the depositor's address when missing).
pub open spec fn withdraw_item(e: EnvView, depositor: Address, id: u32) -> (EnvView, WithdrawResult) {
    match held(e.storage, depositor, id) {
        Some((token, amount)) => if unlocked(e, depositor, id) {
            (
                paid_out(e, depositor, id, depositor),
                WithdrawResult { depositor, deposit_id: id, success: true, amount, token },
            )
        } else {
            (e, WithdrawResult { depositor, deposit_id: id, success: false, amount: 0, token })
        },
        None => (e, WithdrawResult { depositor, deposit_id: id, success: false, amount: 0, token: depositor }),
    }
}

/// The ids of a batch withdrawal, handled in order.
pub open spec fn withdraw_batch(e: EnvView, depositor: Address, ids: Seq<u32>) -> (EnvView, Seq<WithdrawResult>)
    decreases ids.len(),
{
    if ids.len() == 0 {
        (e, Seq::empty())
    } else {
        let (e1, rs) = withdraw_batch(e, depositor, ids.drop_last());
        let (e2, r) = withdraw_item(e1, depositor, ids.last());
        (e2, rs.push(r))
    }
}

/// The environment after a batch withdrawal: the depositor authorizes, the
/// ids are handled in order, and the number of results is announced.
pub open spec fn after_batch_withdraw(e: EnvView, depositor: Address, ids: Seq<u32>) -> EnvView {
    let (e1, rs) = withdraw_batch(e.auth(depositor), depositor, ids);
    e1.emit(Event::BatchWithdraw { depositor, count: rs.len() as u32 })
}

// ----------------------------------------------------------------
//  Changing an active deposit
// ----------------------------------------------------------------

/// Why a top-up of `(depositor, id)` by `amount` is refused, if it is.
pub open spec fn top_up_refusal(e: EnvView, depositor: Address, id: u32, amount: i128) -> Option<VaultError> {
    if amount <= 0 {
        Some(VaultError::InvalidAmount)
    } else {
        match e.storage.deposit_of(depositor, id) {
            None => Some(VaultError::NoDepositFound),
            Some(entry) => if entry.amount + amount > i128::MAX {
                Some(VaultError::AmountTooLarge)
            } else if entry.amount + amount > e.storage.effective_max_deposit() {
                Some(VaultError::AmountTooLarge)
            } else {
                None
            },
        }
    }
}

/// The environment after `(depositor, id)` is topped up by `amount`: the
/// amount moves from the depositor to the vault and the entry's amount
/// grows by it; the unlock time is unchanged.
pub open spec fn after_top_up(e: EnvView, depositor: Address, id: u32, amount: i128) -> EnvView {
    let entry = e.storage.deposits[(depositor, id)];
    let new_total = (entry.amount + amount) as i128;
    e.auth(depositor).transfer(entry.token, depositor, e.contract, amount).with_storage(
        e.storage.insert_deposit(depositor, id, VaultEntry { amount: new_total, ..entry }),
    ).emit(Event::TopUp { depositor, deposit_id: id, token: entry.token, amount, new_total })
}

/// Why extending the lock of `(depositor, id)` to `new_unlock_time` is
/// refused, if it is.
pub open spec fn extend_lock_refusal(e: EnvView, depositor: Address, id: u32, new_unlock_time: u64) -> Option<VaultError> {
    match e.storage.deposit_of(depositor, id) {
        None => Some(VaultError::NoDepositFound),
        Some(entry) => if new_unlock_time <= entry.unlock_time {
            Some(VaultError::UnlockTimeNotInFuture)
        } else if new_unlock_time > e.now() && new_unlock_time - e.now() > e.storage.effective_max_lock_secs() {
            Some(VaultError::LockDurationTooLong)
        } else {
            None
        },
    }
}

/// The environment after the lock of `(depositor, id)` moves to
/// `new_unlock_time`.
pub open spec fn after_extend_lock(e: EnvView, depositor: Address, id: u32, new_unlock_time: u64) -> EnvView {
    let entry = e.storage.deposits[(depositor, id)];
    e.auth(depositor).with_storage(
        e.storage.insert_deposit(depositor, id, VaultEntry { unlock_time: new_unlock_time, ..entry }),
    ).emit(Event::LockExtended { depositor, old_unlock_time: entry.unlock_time, new_unlock_time })
}

/// Why moving `(depositor, id)` from a timestamp lock to a ledger lock is
/// refused, if it is.
pub open spec fn migrate_to_ledger_refusal(e: EnvView, admin: Address, depositor: Address, id: u32, new_unlock_ledger: u32) -> Option<VaultError> {
    if e.storage.admin != Some(admin) {
        Some(VaultError::Unauthorized)
    } else if !e.storage.deposits.contains_key((depositor, id)) {
        Some(VaultError::NoDepositFound)
    } else if new_unlock_ledger <= e.seq() {
        Some(VaultError::UnlockTimeNotInFuture)
    } else {
        None
    }
}

/// The environment after `(depositor, id)` moves to a ledger lock at
/// `new_unlock_ledger`, keeping its token, amount, owner and penalty.
pub open spec fn after_migrate_to_ledger(e: EnvView, admin: Address, depositor: Address, id: u32, new_unlock_ledger: u32) -> EnvView {
    let entry = e.storage.deposits[(depositor, id)];
    let moved = LedgerVaultEntry {
        token: entry.token,
        amount: entry.amount,
        unlock_ledger: new_unlock_ledger,
        depositor: entry.depositor,
        penalty_bps: entry.penalty_bps,
    };
    e.auth(admin).with_storage(
        e.storage.remove_deposit(depositor, id).insert_ledger_deposit(depositor, id, moved),
    ).emit(Event::Migrated { depositor, deposit_id: id, to_ledger: true, to_time: false })
}

/// Why moving `(depositor, id)` from a ledger lock to a timestamp lock is
/// refused, if it is.
pub open spec fn migrate_to_time_refusal(e: EnvView, admin: Address, depositor: Address, id: u32, new_unlock_time: u64) -> Option<VaultError> {
    if e.storage.admin != Some(admin) {
        Some(VaultError::Unauthorized)
    } else if !e.storage.ledger_deposits.contains_key((depositor, id)) {
        Some(VaultError::NoDepositFound)
    } else if new_unlock_time <= e.now() {
        Some(VaultError::UnlockTimeNotInFuture)
    } else {
        None
    }
}

/// The environment after `(depositor, id)` moves to a timestamp lock at
/// `new_unlock_time`, keeping its token, amount, owner and penalty.
pub open spec fn after_migrate_to_time(e: EnvView, admin: Address, depositor: Address, id: u32, new_unlock_time: u64) -> EnvView {
    let entry = e.storage.ledger_deposits[(depositor, id)];
    let moved = VaultEntry {
        token: entry.token,
        amount: entry.amount,
        unlock_time: new_unlock_time,
        depositor: entry.depositor,
        penalty_bps: entry.penalty_bps,
    };
    e.auth(admin).with_storage(
        e.storage.remove_ledger_deposit(depositor, id).insert_deposit(depositor, id, moved),
    ).emit(Event::Migrated { depositor, deposit_id: id, to_ledger: false, to_time: true })
}

// ----------------------------------------------------------------
//  Administration
// ----------------------------------------------------------------

/// `Unauthorized` unless `caller` is the admin.
pub open spec fn admin_refusal(e: EnvView, caller: Address) -> Option<VaultError> {
    if e.storage.admin != Some(caller) {
        Some(VaultError::Unauthorized)
    } else {
        None
    }
}

/// The environment after the admin changes only the settings to `m`
/// (authorizing the call).
pub open spec fn after_setting(e: EnvView, admin: Address, m: VaultModel) -> EnvView {
    e.auth(admin).with_storage(m)
}

/// The environment after the admin pauses new deposits (announced).
pub open spec fn after_pause(e: EnvView, admin: Address) -> EnvView {
    after_setting(e, admin, VaultModel { paused: true, ..e.storage }).emit(Event::Paused { admin })
}

/// The environment after the admin lifts the pause (announced).
pub open spec fn after_unpause(e: EnvView, admin: Address) -> EnvView {
    after_setting(e, admin, VaultModel { paused: false, ..e.storage }).emit(Event::Unpaused { admin })
}

/// The environment after the admin sets the pause flag to `paused`, without
/// an announcement (`pause_deposits`, `unpause_deposits`, `set_paused`).
pub open spec fn after_set_paused(e: EnvView, admin: Address, paused: bool) -> EnvView {
    after_setting(e, admin, VaultModel { paused, ..e.storage })
}

/// The environment after the admin freezes `depositor` (announced).
pub open spec fn after_freeze_depositor(e: EnvView, admin: Address, depositor: Address) -> EnvView {
    after_setting(e, admin, VaultModel { frozen: e.storage.frozen.insert(depositor), ..e.storage }).emit(
        Event::Frozen { admin, depositor },
    )
}

/// The environment after the admin unfreezes `depositor` (announced).
pub open spec fn after_unfreeze_depositor(e: EnvView, admin: Address, depositor: Address) -> EnvView {
    after_setting(e, admin, VaultModel { frozen: e.storage.frozen.remove(depositor), ..e.storage }).emit(
        Event::Unfrozen { admin, depositor },
    )
}

/// The environment after the admin freezes new deposits of `token`.
pub open spec fn after_freeze_token(e: EnvView, admin: Address, token: Address) -> EnvView {
    after_setting(e, admin, VaultModel { frozen_tokens: e.storage.frozen_tokens.insert(token), ..e.storage })
}

/// The environment after the admin unfreezes `token`.
pub open spec fn after_unfreeze_token(e: EnvView, admin: Address, token: Address) -> EnvView {
    after_setting(e, admin, VaultModel { frozen_tokens: e.storage.frozen_tokens.remove(token), ..e.storage })
}

/// Why setting the penalty cap to `bps` is refused, if it is.
pub open spec fn penalty_cap_refusal(e: EnvView, caller: Address, bps: u32) -> Option<VaultError> {
    if admin_refusal(e, caller) is Some {
        admin_refusal(e, caller)
    } else if bps > 10_000 {
        Some(VaultError::InvalidPenaltyBps)
    } else {
        None
    }
}

/// The environment after the admin sets the penalty cap to `bps`.
pub open spec fn after_set_max_penalty_bps(e: EnvView, admin: Address, bps: u32) -> EnvView {
    after_setting(e, admin, VaultModel { max_penalty_bps: Some(bps), ..e.storage })
}

/// Why setting the minimum cancellation fee to `fee` is refused, if it is.
pub open spec fn min_fee_refusal(e: EnvView, caller: Address, fee: i128) -> Option<VaultError> {
    if admin_refusal(e, caller) is Some {
        admin_refusal(e, caller)
    } else if fee < 0 {
        Some(VaultError::InvalidAmount)
    } else {
        None
    }
}

/// The environment after the admin sets the minimum cancellation fee.
pub open spec fn after_set_min_cancel_fee(e: EnvView, admin: Address, fee: i128) -> EnvView {
    after_setting(e, admin, VaultModel { min_cancel_fee: Some(fee), ..e.storage })
}

/// Why nominating `new_admin` is refused, if it is.
pub open spec fn nomination_refusal(e: EnvView, caller: Address, new_admin: Address) -> Option<VaultError> {
    if admin_refusal(e, caller) is Some {
        admin_refusal(e, caller)
    } else if new_admin == caller {
        Some(VaultError::InvalidAdmin)
    } else {
        None
    }
}

/// The environment after the admin nominates `new_admin` (announced).
pub open spec fn after_nomination(e: EnvView, admin: Address, new_admin: Address) -> EnvView {
    after_setting(e, admin, VaultModel { pending_admin: Some(new_admin), ..e.storage }).emit(
        Event::AdminTransferInitiated { current_admin: admin, pending_admin: new_admin },
    )
}

/// Why accepting the admin role is refused, if it is: only the nominee can.
pub open spec fn acceptance_refusal(e: EnvView, caller: Address) -> Option<VaultError> {
    if e.storage.pending_admin != Some(caller) {
        Some(VaultError::Unauthorized)
    } else {
        None
    }
}

/// The environment after the nominee accepts the admin role (announced).
pub open spec fn after_acceptance(e: EnvView, new_admin: Address) -> EnvView {
    after_setting(e, new_admin, VaultModel { admin: Some(new_admin), pending_admin: None, ..e.storage }).emit(
        Event::AdminTransferAccepted { new_admin },
    )
}

/// The environment after the admin withdraws a nomination (announced when
/// there was one).
pub open spec fn after_cancel_nomination(e: EnvView, admin: Address) -> EnvView {
    match e.storage.pending_admin {
        Some(pending) => after_setting(e, admin, VaultModel { pending_admin: None, ..e.storage }).emit(
            Event::AdminTransferCancelled { current_admin: admin, pending_admin: pending },
        ),
        None => e.auth(admin),
    }
}

/// The environment after the admin renounces the role (announced).
pub open spec fn after_renounce(e: EnvView, admin: Address) -> EnvView {
    after_setting(e, admin, VaultModel { admin: None, pending_admin: None, ..e.storage }).emit(
        Event::AdminRenounced { former_admin: admin },
    )
}

/// Why the depositor's own timestamp-locked deposit is refused, if it is.
pub open spec fn deposit_refusal(
    e: EnvView,
    depositor: Address,
    token: Address,
    amount: i128,
    unlock_time: u64,
    penalty_bps: u32,
) -> Option<VaultError> {
    time_deposit_refusal(e, depositor, token, amount, unlock_time, penalty_bps, true)
}

/// Why a timestamp-locked deposit paid for `depositor` by someone else is
/// refused, if it is: the checks of `deposit_refusal` but the freeze of the
/// beneficiary.
pub open spec fn deposit_for_refusal(
    e: EnvView,
    depositor: Address,
    token: Address,
    amount: i128,
    unlock_time: u64,
    penalty_bps: u32,
) -> Option<VaultError> {
    time_deposit_refusal(e, depositor, token, amount, unlock_time, penalty_bps, false)
}

// ----------------------------------------------------------------
//  Queries
// ----------------------------------------------------------------

/// `a - b`, or 0 when `b` is larger.
pub open spec fn saturating_diff(a: int, b: int) -> int {
    if a > b {
        a - b
    } else {
        0
    }
}

/// Seconds until deposit `(depositor, id)` unlocks: for a ledger lock, the
/// remaining ledgers times `LEDGER_SECONDS`; 0 once unlocked or when there is
/// no such deposit.
pub open spec fn time_remaining_of(e: EnvView, depositor: Address, id: u32) -> int {
    match e.storage.deposit_of(depositor, id) {
        Some(entry) => saturating_diff(entry.unlock_time as int, e.now() as int),
        None => match e.storage.ledger_deposit_of(depositor, id) {
            Some(entry) => saturating_diff(entry.unlock_ledger as int, e.seq() as int) * LEDGER_SECONDS,
            None => 0,
        },
    }
}

/// The listing of deposit `(depositor, id)` in `get_all_vaults`: a ledger
/// lock is shown as a timestamp lock at `unlock_ledger * LEDGER_SECONDS`.
pub open spec fn vault_info(m: VaultModel, depositor: Address, id: u32) -> Seq<VaultInfo> {
    match m.deposit_of(depositor, id) {
        Some(entry) => seq![VaultInfo { depositor, deposit_id: id, entry }],
        None => match m.ledger_deposit_of(depositor, id) {
            Some(l) => seq![
                VaultInfo {
                    depositor,
                    deposit_id: id,
                    entry: VaultEntry {
                        token: l.token,
                        amount: l.amount,
                        unlock_time: (l.unlock_ledger * LEDGER_SECONDS) as u64,
                        depositor: l.depositor,
                        penalty_bps: l.penalty_bps,
                    },
                },
            ],
            None => Seq::empty(),
        },
    }
}

/// The listings of `depositor`'s deposits `ids`, in order.
pub open spec fn vault_infos(m: VaultModel, depositor: Address, ids: Seq<u32>) -> Seq<VaultInfo>
    decreases ids.len(),
{
    if ids.len() == 0 {
        Seq::empty()
    } else {
        vault_infos(m, depositor, ids.drop_last()) + vault_info(m, depositor, ids.last())
    }
}

/// The listings of the active deposits of either kind of each of
/// `depositors`, in order; each depositor's in ascending id order.
pub open spec fn all_vaults(m: VaultModel, depositors: Seq<Address>) -> Seq<VaultInfo>
    decreases depositors.len(),
{
    if depositors.len() == 0 {
        Seq::empty()
    } else {
        let d = depositors.last();
        all_vaults(m, depositors.drop_last()) + vault_infos(m, d, m.all_ids_below(d, m.counter(d) as nat))
    }
}

// ----------------------------------------------------------------
//  The invariant across transitions
// ----------------------------------------------------------------

/// Unlisting a depositor with no active deposit removes exactly that
/// address from the depositor list.
pub proof fn lemma_remove_depositor_list(m: VaultModel, d: Address)
    requires
        m.depositors.no_duplicates(),
        m.depositors.contains(d),
        !m.has_active(d),
    ensures
        m.remove_depositor(d).depositors.no_duplicates(),
        m.remove_depositor(d).depositors.len() == m.depositors.len() - 1,
        forall|a: Address|
            #[trigger] m.remove_depositor(d).depositors.contains(a) <==> (m.depositors.contains(a)
                && a != d),
{
    let s = m.depositors;
    let i = m.slot_of(d);
    let last = s.len() - 1;
    let n = m.remove_depositor(d).depositors;
    assert(0 <= i < s.len() && s[i] == d);
    assert(n =~= s.update(i, s[last]).drop_last());
    assert forall|a: Address| #[trigger] n.contains(a) <==> (s.contains(a) && a != d) by {
        if s.contains(a) && a != d {
            let j = choose|j: int| 0 <= j < s.len() && s[j] == a;
            if j == last {
                assert(i != last);
                assert(n[i] == a);
            } else {
                assert(j != i);
                assert(n[j] == a);
            }
        }
        if n.contains(a) {
            let k = choose|k: int| 0 <= k < n.len() && n[k] == a;
            if k == i {
                assert(n[k] == s[last]);
                assert(last != i);
            } else {
                assert(n[k] == s[k]);
            }
        }
    }
    assert forall|x: int, y: int| 0 <= x < n.len() && 0 <= y < n.len() && x != y implies n[x] != n[y] by {
        if x == i {
            assert(n[x] == s[last]);
        } else if y == i {
            assert(n[y] == s[last]);
        }
    }
}

/// Two models with the same deposits agree on who holds an active deposit.
pub proof fn lemma_same_deposits_same_activity(m1: VaultModel, m2: VaultModel)
    requires
        m1.deposits == m2.deposits,
        m1.ledger_deposits == m2.ledger_deposits,
    ensures
        forall|a: Address| #[trigger] m1.has_active(a) == m2.has_active(a),
{
    assert forall|a: Address| #[trigger] m1.has_active(a) == m2.has_active(a) by {
        if m1.has_active(a) {
            let i = choose|i: u32| #[trigger] m1.is_active(a, i);
            assert(m2.is_active(a, i));
        }
        if m2.has_active(a) {
            let i = choose|i: u32| #[trigger] m2.is_active(a, i);
            assert(m1.is_active(a, i));
        }
    }
}

/// Releasing an active deposit keeps the invariant.
pub proof fn lemma_released_inv(m: VaultModel, d: Address, id: u32)
    requires
        m.inv(),
        m.is_active(d, id),
    ensures
        released(m, d, id).inv(),
        released(m, d, id).counters == m.counters,
        released(m, d, id).admin == m.admin,
{
    let m1 = if m.deposits.contains_key((d, id)) {
        m.remove_deposit(d, id)
    } else {
        m.remove_ledger_deposit(d, id)
    };
    let m2 = m1.remove_depositor(d);
    assert(m.has_active(d));
    assert(m.depositors.contains(d));
    assert forall|a: Address| a != d implies #[trigger] m1.has_active(a) == m.has_active(a) by {
        if m.has_active(a) {
            let i = choose|i: u32| #[trigger] m.is_active(a, i);
            assert(m1.is_active(a, i));
        }
        if m1.has_active(a) {
            let i = choose|i: u32| #[trigger] m1.is_active(a, i);
            assert(m.is_active(a, i));
        }
    }
    assert(m1.entries_ok());
    if m1.has_active(d) {
        assert(m2 == m1);
    } else {
        lemma_remove_depositor_list(m1, d);
    }
    lemma_same_deposits_same_activity(m1, m2);
    assert forall|a: Address|
        #![trigger m2.depositors.contains(a)]
        #![trigger m2.has_active(a)]
        m2.depositors.contains(a) <==> m2.has_active(a) by {
        assert(m2.has_active(a) == m1.has_active(a));
        if a != d {
            assert(m1.has_active(a) == m.has_active(a));
            assert(m.depositors.contains(a) <==> m.has_active(a));
        }
    }
}

/// Storing a new deposit under the depositor's next id keeps the invariant.
pub proof fn lemma_stored_deposit_inv(m: VaultModel, d: Address, time_lock: bool, te: VaultEntry, le: LedgerVaultEntry)
    requires
        m.inv(),
        deposit_fits(m, d),
        time_lock ==> te.depositor == d && te.amount > 0 && te.penalty_bps <= 10_000,
        !time_lock ==> le.depositor == d && le.amount > 0 && le.penalty_bps <= 10_000,
    ensures
        time_lock ==> stored_time_deposit(m, d, te).inv(),
        !time_lock ==> stored_ledger_deposit(m, d, le).inv(),
        stored_time_deposit(m, d, te).admin == m.admin,
        stored_ledger_deposit(m, d, le).admin == m.admin,
{
    let id = m.counter(d);
    let m0 = m.set_counter(d, (id + 1) as u32);
    assert(!m.deposits.contains_key((d, id)));
    assert(!m.ledger_deposits.contains_key((d, id)));
    assert(m0.entries_ok()) by {
        assert forall|k: (Address, u32)| #[trigger] m0.deposits.contains_key(k) implies k.1 < m0.counter(k.0) by {
            assert(m.deposits.contains_key(k));
        }
        assert forall|k: (Address, u32)| #[trigger] m0.ledger_deposits.contains_key(k) implies k.1 < m0.counter(k.0) by {
            assert(m.ledger_deposits.contains_key(k));
        }
    }
    let m1 = if time_lock {
        m0.insert_deposit(d, id, te)
    } else {
        m0.insert_ledger_deposit(d, id, le)
    };
    assert(m1.entries_ok());
    assert(m1.is_active(d, id));
    assert forall|a: Address| a != d implies #[trigger] m1.has_active(a) == m.has_active(a) by {
        if m.has_active(a) {
            let i = choose|i: u32| #[trigger] m.is_active(a, i);
            assert(m1.is_active(a, i));
        }
        if m1.has_active(a) {
            let i = choose|i: u32| #[trigger] m1.is_active(a, i);
            assert(m.is_active(a, i));
        }
    }
    let m2 = m1.add_depositor(d);
    lemma_same_deposits_same_activity(m1, m2);
    assert forall|x: int, y: int| 0 <= x < m2.depositors.len() && 0 <= y < m2.depositors.len() && x != y implies m2.depositors[x] != m2.depositors[y] by {
        if !m.depositors.contains(d) {
            if x == m.depositors.len() {
                assert(!m.depositors.contains(m2.depositors[y]) || m2.depositors[y] != d);
            }
            if y == m.depositors.len() {
                assert(!m.depositors.contains(m2.depositors[x]) || m2.depositors[x] != d);
            }
        }
    }
    assert forall|a: Address|
        #![trigger m2.depositors.contains(a)]
        #![trigger m2.has_active(a)]
        m2.depositors.contains(a) <==> m2.has_active(a) by {
        assert(m2.has_active(a) == m1.has_active(a));
        if a == d {
            assert(m2.is_active(d, id));
            assert(m2.depositors.contains(d)) by {
                if !m.depositors.contains(d) {
                    assert(m2.depositors[m.depositors.len() as int] == d);
                }
            }
        } else {
            assert(m1.has_active(a) == m.has_active(a));
            assert(m.depositors.contains(a) <==> m.has_active(a));
            if m2.depositors.contains(a) && !m.depositors.contains(d) {
                let j = choose|j: int| 0 <= j < m2.depositors.len() && m2.depositors[j] == a;
                assert(j < m.depositors.len());
                assert(m.depositors.contains(a));
            }
            if m.depositors.contains(a) {
                let j = choose|j: int| 0 <= j < m.depositors.len() && m.depositors[j] == a;
                assert(m2.depositors[j] == a);
            }
        }
    }
}

/// A batch withdrawal reports one result per id.
pub proof fn lemma_withdraw_batch_len(e: EnvView, depositor: Address, ids: Seq<u32>)
    ensures
        withdraw_batch(e, depositor, ids).1.len() == ids.len(),
    decreases ids.len(),
{
    if ids.len() > 0 {
        lemma_withdraw_batch_len(e, depositor, ids.drop_last());
    }
}

/// Changing only settings (admin, pause, freeze flags, limits) keeps the
/// invariant, as long as the penalty cap, the minimum fee and the admin
/// chain stay valid.
pub proof fn lemma_settings_inv(m: VaultModel, m2: VaultModel)
    requires
        m.inv(),
        m2.deposits == m.deposits,
        m2.ledger_deposits == m.ledger_deposits,
        m2.counters == m.counters,
        m2.depositors == m.depositors,
        m2.effective_max_penalty_bps() <= 10_000,
        m2.effective_min_cancel_fee() >= 0,
        m2.admin is Some ==> m2.initialized,
        m2.pending_admin is Some ==> m2.admin is Some,
    ensures
        m2.inv(),
{
    lemma_same_deposits_same_activity(m, m2);
    assert(m2.entries_ok());
}

/// Replacing an active timestamp-locked entry by one with the same owner, a
/// positive amount and the same penalty keeps the invariant.
pub proof fn lemma_replaced_inv(m: VaultModel, d: Address, id: u32, e: VaultEntry)
    requires
        m.inv(),
        m.deposits.contains_key((d, id)),
        e.depositor == d,
        e.amount > 0,
        e.penalty_bps == m.deposits[(d, id)].penalty_bps,
    ensures
        m.insert_deposit(d, id, e).inv(),
{
    let m2 = m.insert_deposit(d, id, e);
    assert(m2.entries_ok()) by {
        assert forall|k: (Address, u32)| #[trigger] m2.deposits.contains_key(k) implies k.1 < m2.counter(k.0) && !m2.ledger_deposits.contains_key(k) by {
            assert(m.deposits.contains_key(k));
        }
    }
    assert forall|a: Address| #[trigger] m2.has_active(a) == m.has_active(a) by {
        if m.has_active(a) {
            let i = choose|i: u32| #[trigger] m.is_active(a, i);
            assert(m2.is_active(a, i));
        }
        if m2.has_active(a) {
            let i = choose|i: u32| #[trigger] m2.is_active(a, i);
            assert(m.is_active(a, i));
        }
    }
}

/// Moving an active deposit from one kind of lock to the other (same owner,
/// amount and penalty) keeps the invariant.
pub proof fn lemma_migrated_inv(m: VaultModel, d: Address, id: u32, to_ledger: bool, te: VaultEntry, le: LedgerVaultEntry)
    requires
        m.inv(),
        to_ledger ==> m.deposits.contains_key((d, id)) && le.depositor == d && le.amount > 0
            && le.penalty_bps <= 10_000,
        !to_ledger ==> m.ledger_deposits.contains_key((d, id)) && te.depositor == d && te.amount > 0
            && te.penalty_bps <= 10_000,
    ensures
        to_ledger ==> m.remove_deposit(d, id).insert_ledger_deposit(d, id, le).inv(),
        !to_ledger ==> m.remove_ledger_deposit(d, id).insert_deposit(d, id, te).inv(),
{
    let m2 = if to_ledger {
        m.remove_deposit(d, id).insert_ledger_deposit(d, id, le)
    } else {
        m.remove_ledger_deposit(d, id).insert_deposit(d, id, te)
    };
    assert(m.is_active(d, id));
    assert(m2.entries_ok()) by {
        assert forall|k: (Address, u32)| #[trigger] m2.deposits.contains_key(k) implies k.1 < m2.counter(k.0) && !m2.ledger_deposits.contains_key(k) by {
            if k != (d, id) {
                assert(m.deposits.contains_key(k));
            }
        }
        assert forall|k: (Address, u32)| #[trigger] m2.ledger_deposits.contains_key(k) implies k.1 < m2.counter(k.0) by {
            if k != (d, id) {
                assert(m.ledger_deposits.contains_key(k));
            }
        }
    }
    assert forall|a: Address| #[trigger] m2.has_active(a) == m.has_active(a) by {
        if m.has_active(a) {
            let i = choose|i: u32| #[trigger] m.is_active(a, i);
            assert(m2.is_active(a, i));
        }
        if m2.has_active(a) {
            let i = choose|i: u32| #[trigger] m2.is_active(a, i);
            assert(m.is_active(a, i));
        }
    }
}

} // verus!
