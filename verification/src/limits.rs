//! The limits every operation enforces, stated over the vault's settings
//! (the configured caps, else the defaults, as `get_constants` reports them)
//! and proved of the operations' rules: what an accepted call must satisfy,
//! that every call within the limits is accepted, which error each broken
//! limit gives, and which flags an operation does not look at.
use vstd::prelude::*;

use crate::constants::{LEDGER_SECONDS, MIN_LOCK_DURATION_SECS};
use crate::errors::VaultError;
use crate::model::{EnvView, VaultModel};
use crate::rules::{
    after_withdraw, after_withdraw_to, after_emergency_withdraw, after_time_deposit, after_ledger_deposit,
    after_pause, after_unpause, after_set_paused, after_freeze_depositor, after_unfreeze_depositor,
    after_freeze_token, after_unfreeze_token, penalty_cap_refusal, after_set_max_penalty_bps, min_fee_refusal,
    after_set_min_cancel_fee, nomination_refusal, after_nomination, acceptance_refusal, after_acceptance,
    after_cancel_nomination, after_renounce, deposit_refusal, deposit_for_refusal,
    admin_refusal, after_cancel, after_extend_lock, after_top_up, batch_withdraw_refusal, cancel_penalty,
    cancel_refusal, emergency_batch_refusal, emergency_refusal, extend_lock_refusal, initialize_refusal,
    ledger_deposit_refusal, migrate_to_ledger_refusal, migrate_to_time_refusal, time_deposit_refusal,
    time_remaining_of, top_up_refusal, withdraw_refusal,
};
use crate::constants::MAX_BATCH_SIZE;
use crate::types::{Address, Event, LedgerVaultEntry, Transfer, VaultEntry};

verus! {

/// `r` is one of the refusals every new deposit can get before its lock is
/// looked at.
pub open spec fn is_entry_check(r: Option<VaultError>) -> bool {
    ||| r == Some(VaultError::ContractPaused)
    ||| r == Some(VaultError::DepositorFrozen)
    ||| r == Some(VaultError::TokenFrozen)
    ||| r == Some(VaultError::InvalidAmount)
    ||| r == Some(VaultError::AmountTooLarge)
    ||| r == Some(VaultError::InvalidPenaltyBps)
}

/// The vault accepts new deposits of `token` from `depositor` of `amount`
/// at `penalty_bps`, lock aside: not paused, neither frozen, a positive
/// amount within the deposit cap, a penalty within the penalty cap.
pub open spec fn entry_allowed(m: VaultModel, depositor: Address, token: Address, amount: i128, penalty_bps: u32) -> bool {
    &&& !m.paused
    &&& !m.frozen.contains(depositor)
    &&& !m.frozen_tokens.contains(token)
    &&& 0 < amount <= m.effective_max_deposit()
    &&& penalty_bps <= m.effective_max_penalty_bps()
}

/// A ledger-locked deposit is accepted exactly when it is allowed and locks
/// for a number of ledgers whose duration (at `LEDGER_SECONDS` each) lies
/// between the minimum lock and the lock ceiling; the caps are the
/// configured ones when set. A frozen token is refused with `TokenFrozen`,
/// and an amount above the deposit cap with `AmountTooLarge`, once the
/// earlier checks pass.
pub proof fn law_ledger_deposit_limits(
    e: EnvView,
    depositor: Address,
    token: Address,
    amount: i128,
    unlock_ledger: u32,
    penalty_bps: u32,
)
    ensures
        ({
            let m = e.storage;
            let k = unlock_ledger - e.seq();
            &&& ledger_deposit_refusal(e, depositor, token, amount, unlock_ledger, penalty_bps) is None <==> {
                &&& entry_allowed(m, depositor, token, amount, penalty_bps)
                &&& e.seq() < unlock_ledger
                &&& MIN_LOCK_DURATION_SECS <= k * LEDGER_SECONDS <= m.effective_max_lock_secs()
            }
            &&& m.paused ==> ledger_deposit_refusal(e, depositor, token, amount, unlock_ledger, penalty_bps)
                == Some(VaultError::ContractPaused)
            &&& (!m.paused && m.frozen.contains(depositor)) ==> ledger_deposit_refusal(
                e,
                depositor,
                token,
                amount,
                unlock_ledger,
                penalty_bps,
            ) == Some(VaultError::DepositorFrozen)
            &&& (!m.paused && !m.frozen.contains(depositor) && m.frozen_tokens.contains(token))
                ==> ledger_deposit_refusal(e, depositor, token, amount, unlock_ledger, penalty_bps) == Some(
                VaultError::TokenFrozen,
            )
            &&& (!m.paused && !m.frozen.contains(depositor) && !m.frozen_tokens.contains(token) && amount > 0
                && amount > m.effective_max_deposit()) ==> ledger_deposit_refusal(
                e,
                depositor,
                token,
                amount,
                unlock_ledger,
                penalty_bps,
            ) == Some(VaultError::AmountTooLarge)
        }),
{
    let k = unlock_ledger - e.seq();
    let cap = e.storage.effective_max_lock_secs();
    assert(k <= cap / LEDGER_SECONDS <==> k * LEDGER_SECONDS <= cap) by (nonlinear_arith)
        requires
            LEDGER_SECONDS == 5,
    ;
    assert(k >= MIN_LOCK_DURATION_SECS / LEDGER_SECONDS <==> k * LEDGER_SECONDS >= MIN_LOCK_DURATION_SECS) by (nonlinear_arith)
        requires
            LEDGER_SECONDS == 5,
            MIN_LOCK_DURATION_SECS == 60,
    ;
}

/// A timestamp-locked deposit (by the depositor, or paid for by someone
/// else, which skips the depositor's freeze flag) is accepted exactly when
/// it is allowed and unlocks in the future, between the minimum lock and
/// the lock ceiling from now.
pub proof fn law_time_deposit_limits(
    e: EnvView,
    depositor: Address,
    token: Address,
    amount: i128,
    unlock_time: u64,
    penalty_bps: u32,
    check_frozen: bool,
)
    ensures
        ({
            let m = e.storage;
            let frozen_ok = !check_frozen || !m.frozen.contains(depositor);
            &&& time_deposit_refusal(e, depositor, token, amount, unlock_time, penalty_bps, check_frozen) is None
                <==> {
                &&& !m.paused
                &&& frozen_ok
                &&& !m.frozen_tokens.contains(token)
                &&& 0 < amount <= m.effective_max_deposit()
                &&& penalty_bps <= m.effective_max_penalty_bps()
                &&& e.now() < unlock_time
                &&& MIN_LOCK_DURATION_SECS <= unlock_time - e.now() <= m.effective_max_lock_secs()
            }
            &&& (!m.paused && frozen_ok && m.frozen_tokens.contains(token)) ==> time_deposit_refusal(
                e,
                depositor,
                token,
                amount,
                unlock_time,
                penalty_bps,
                check_frozen,
            ) == Some(VaultError::TokenFrozen)
            &&& (!m.paused && frozen_ok && !m.frozen_tokens.contains(token) && amount > 0 && amount
                > m.effective_max_deposit()) ==> time_deposit_refusal(
                e,
                depositor,
                token,
                amount,
                unlock_time,
                penalty_bps,
                check_frozen,
            ) == Some(VaultError::AmountTooLarge)
        }),
{
}

/// Both kinds of deposit make the same entry checks, in the same order:
/// when one of them is refused before its lock is examined, the other is
/// refused with the same error, whatever the two locks are.
pub proof fn law_deposit_kinds_share_entry_checks(
    e: EnvView,
    depositor: Address,
    token: Address,
    amount: i128,
    unlock_time: u64,
    unlock_ledger: u32,
    penalty_bps: u32,
)
    ensures
        ({
            let by_time = time_deposit_refusal(e, depositor, token, amount, unlock_time, penalty_bps, true);
            let by_ledger = ledger_deposit_refusal(e, depositor, token, amount, unlock_ledger, penalty_bps);
            &&& is_entry_check(by_time) ==> by_ledger == by_time
            &&& is_entry_check(by_ledger) ==> by_time == by_ledger
        }),
{
}

/// A top-up is accepted exactly when the amount is positive, the
/// timestamp-locked deposit exists and the new total stays within the
/// deposit cap (the configured one when set). It does not look at the
/// pause flag or at either freeze: pausing and freezing block only new
/// deposits (and, for freezes, withdrawals).
pub proof fn law_top_up_limits(
    e: EnvView,
    depositor: Address,
    id: u32,
    amount: i128,
    paused: bool,
    frozen: Set<Address>,
    frozen_tokens: Set<Address>,
)
    ensures
        top_up_refusal(e, depositor, id, amount) is None <==> {
            &&& amount > 0
            &&& e.storage.deposits.contains_key((depositor, id))
            &&& e.storage.deposits[(depositor, id)].amount + amount <= e.storage.effective_max_deposit()
        },
        top_up_refusal(
            e.with_storage(VaultModel { paused, frozen, frozen_tokens, ..e.storage }),
            depositor,
            id,
            amount,
        ) == top_up_refusal(e, depositor, id, amount),
{
}

/// An accepted top-up adds exactly `amount` to the deposit and changes
/// nothing else about it; the one transfer it makes moves `amount` of the
/// deposit's token from the depositor to the vault, and no other deposit
/// changes.
pub proof fn law_top_up_adds_exactly(e: EnvView, depositor: Address, id: u32, amount: i128)
    requires
        top_up_refusal(e, depositor, id, amount) is None,
    ensures
        ({
            let before = e.storage.deposits[(depositor, id)];
            let after = after_top_up(e, depositor, id, amount);
            &&& after.storage.deposits[(depositor, id)].amount == before.amount + amount
            &&& after.storage.deposits[(depositor, id)] == (VaultEntry {
                amount: after.storage.deposits[(depositor, id)].amount,
                ..before
            })
            &&& after.transfers == e.transfers.push(
                Transfer { token: before.token, from: depositor, to: e.contract, amount },
            )
            &&& forall|k: (Address, u32)| k != (depositor, id) ==> after.storage.deposits.get(k)
                == e.storage.deposits.get(k)
            &&& after.storage.ledger_deposits == e.storage.ledger_deposits
            &&& after.storage.depositors == e.storage.depositors
        }),
{
}

/// Extending a lock is accepted exactly when the timestamp-locked deposit
/// exists and the new unlock time is later than the current one and no
/// further from now than the lock ceiling (the configured one when set). It
/// does not look at the pause flag or at either freeze.
pub proof fn law_extend_lock_limits(
    e: EnvView,
    depositor: Address,
    id: u32,
    new_unlock_time: u64,
    paused: bool,
    frozen: Set<Address>,
    frozen_tokens: Set<Address>,
)
    ensures
        extend_lock_refusal(e, depositor, id, new_unlock_time) is None <==> {
            &&& e.storage.deposits.contains_key((depositor, id))
            &&& new_unlock_time > e.storage.deposits[(depositor, id)].unlock_time
            &&& (new_unlock_time <= e.now() || new_unlock_time - e.now() <= e.storage.effective_max_lock_secs())
        },
        (e.storage.deposits.contains_key((depositor, id)) && new_unlock_time > e.storage.deposits[(
            depositor,
            id,
        )].unlock_time && new_unlock_time > e.now() && new_unlock_time - e.now()
            > e.storage.effective_max_lock_secs()) ==> extend_lock_refusal(e, depositor, id, new_unlock_time)
            == Some(VaultError::LockDurationTooLong),
        extend_lock_refusal(
            e.with_storage(VaultModel { paused, frozen, frozen_tokens, ..e.storage }),
            depositor,
            id,
            new_unlock_time,
        ) == extend_lock_refusal(e, depositor, id, new_unlock_time),
{
}

/// An accepted extension changes only the deposit's unlock time, to the
/// new one, and moves no tokens.
pub proof fn law_extend_lock_changes_only_unlock_time(e: EnvView, depositor: Address, id: u32, new_unlock_time: u64)
    requires
        extend_lock_refusal(e, depositor, id, new_unlock_time) is None,
    ensures
        ({
            let before = e.storage.deposits[(depositor, id)];
            let after = after_extend_lock(e, depositor, id, new_unlock_time);
            &&& after.storage.deposits[(depositor, id)] == (VaultEntry { unlock_time: new_unlock_time, ..before })
            &&& after.storage.deposits.dom() == e.storage.deposits.dom()
            &&& forall|k: (Address, u32)| k != (depositor, id) ==> after.storage.deposits.get(k)
                == e.storage.deposits.get(k)
            &&& after.transfers == e.transfers
            &&& after.storage.ledger_deposits == e.storage.ledger_deposits
        }),
{
    let after = after_extend_lock(e, depositor, id, new_unlock_time);
    assert(after.storage.deposits.dom() =~= e.storage.deposits.dom());
}

/// The deposit `(depositor, id)` exists and its lock has expired: its unlock
/// time has come (timestamp lock) or its unlock ledger has been reached
/// (ledger lock).
pub open spec fn lock_expired(e: EnvView, depositor: Address, id: u32) -> bool {
    ||| e.storage.deposits.contains_key((depositor, id)) && e.now() >= e.storage.deposits[(depositor, id)].unlock_time
    ||| !e.storage.deposits.contains_key((depositor, id)) && e.storage.ledger_deposits.contains_key((depositor, id))
        && e.seq() >= e.storage.ledger_deposits[(depositor, id)].unlock_ledger
}

/// The deposit `(depositor, id)` exists, of either kind.
pub open spec fn exists_deposit(e: EnvView, depositor: Address, id: u32) -> bool {
    e.storage.deposits.contains_key((depositor, id)) || e.storage.ledger_deposits.contains_key((depositor, id))
}

/// The owner's withdrawal is accepted exactly when the owner is not frozen
/// and the deposit's lock has expired. It does not look at the pause flag,
/// at token freezes or at the admin settings.
pub proof fn law_withdraw_limits(
    e: EnvView,
    depositor: Address,
    id: u32,
    paused: bool,
    frozen_tokens: Set<Address>,
    admin: Option<Address>,
)
    ensures
        withdraw_refusal(e, depositor, id) is None <==> (!e.storage.frozen.contains(depositor) && lock_expired(
            e,
            depositor,
            id,
        )),
        (!e.storage.frozen.contains(depositor) && !exists_deposit(e, depositor, id)) ==> withdraw_refusal(
            e,
            depositor,
            id,
        ) == Some(VaultError::NoDepositFound),
        (!e.storage.frozen.contains(depositor) && exists_deposit(e, depositor, id) && !lock_expired(e, depositor, id))
            ==> withdraw_refusal(e, depositor, id) == Some(VaultError::FundsStillLocked),
        withdraw_refusal(e.with_storage(VaultModel { paused, frozen_tokens, admin, ..e.storage }), depositor, id)
            == withdraw_refusal(e, depositor, id),
{
}

/// Cancelling is accepted exactly when the owner is not frozen and the
/// deposit exists and is still locked; once the lock has expired it is
/// refused with `FundsAlreadyUnlocked`. It does not look at the pause flag
/// or at token freezes.
pub proof fn law_cancel_limits(e: EnvView, depositor: Address, id: u32, paused: bool, frozen_tokens: Set<Address>)
    ensures
        cancel_refusal(e, depositor, id) is None <==> (!e.storage.frozen.contains(depositor) && exists_deposit(
            e,
            depositor,
            id,
        ) && !lock_expired(e, depositor, id)),
        (!e.storage.frozen.contains(depositor) && lock_expired(e, depositor, id)) ==> cancel_refusal(
            e,
            depositor,
            id,
        ) == Some(VaultError::FundsAlreadyUnlocked),
        cancel_refusal(e.with_storage(VaultModel { paused, frozen_tokens, ..e.storage }), depositor, id)
            == cancel_refusal(e, depositor, id),
{
}

/// The emergency withdrawal is accepted exactly when the caller is the
/// admin and the deposit exists, locked or not. It does not look at the
/// pause flag, at either freeze or at the clock.
pub proof fn law_emergency_limits(
    e: EnvView,
    caller: Address,
    depositor: Address,
    id: u32,
    paused: bool,
    frozen: Set<Address>,
    frozen_tokens: Set<Address>,
    now: u64,
    seq: u32,
)
    ensures
        emergency_refusal(e, caller, depositor, id) is None <==> (e.storage.admin == Some(caller) && exists_deposit(
            e,
            depositor,
            id,
        )),
        e.storage.admin != Some(caller) ==> emergency_refusal(e, caller, depositor, id) == Some(
            VaultError::Unauthorized,
        ),
        emergency_refusal(
            EnvView {
                ledger: crate::types::Ledger { timestamp: now, sequence: seq },
                storage: VaultModel { paused, frozen, frozen_tokens, ..e.storage },
                ..e
            },
            caller,
            depositor,
            id,
        ) == emergency_refusal(e, caller, depositor, id),
{
}

/// Only the admin can release funds early in a batch, and a batch holds at
/// most `MAX_BATCH_SIZE` items; a depositor's batch withdrawal is refused
/// exactly when it is too large or the depositor is frozen.
pub proof fn law_batch_limits(e: EnvView, caller: Address, len: nat)
    ensures
        emergency_batch_refusal(e, caller, len) is None <==> (e.storage.admin == Some(caller) && len
            <= MAX_BATCH_SIZE),
        batch_withdraw_refusal(e, caller, len) is None <==> (len <= MAX_BATCH_SIZE && !e.storage.frozen.contains(
            caller,
        )),
        admin_refusal(e, caller) is None <==> e.storage.admin == Some(caller),
        admin_refusal(e, caller) is Some ==> admin_refusal(e, caller) == Some(VaultError::Unauthorized),
{
}

/// Migrations are the admin's: moving to a ledger lock needs an existing
/// timestamp lock and a future ledger; moving to a timestamp lock needs an
/// existing ledger lock and a future time.
pub proof fn law_migration_limits(e: EnvView, caller: Address, depositor: Address, id: u32, ledger: u32, time: u64)
    ensures
        migrate_to_ledger_refusal(e, caller, depositor, id, ledger) is None <==> (e.storage.admin == Some(caller)
            && e.storage.deposits.contains_key((depositor, id)) && ledger > e.seq()),
        migrate_to_time_refusal(e, caller, depositor, id, time) is None <==> (e.storage.admin == Some(caller)
            && e.storage.ledger_deposits.contains_key((depositor, id)) && time > e.now()),
{
}

/// A vault is initialized once, with a positive deposit cap and a non-zero
/// lock ceiling when either is given.
pub proof fn law_initialize_limits(e: EnvView, max_deposit: Option<i128>, max_lock_secs: Option<u64>)
    ensures
        initialize_refusal(e, max_deposit, max_lock_secs) is None <==> {
            &&& !e.storage.initialized
            &&& (max_deposit matches Some(v) ==> v > 0)
            &&& (max_lock_secs matches Some(v) ==> v > 0)
        },
        e.storage.initialized ==> initialize_refusal(e, max_deposit, max_lock_secs) == Some(
            VaultError::Unauthorized,
        ),
{
}

/// The penalty is the smallest value that is at least the rate's share of
/// the amount and at least the minimum fee, unless that exceeds the amount,
/// in which case it is the whole amount.
pub proof fn law_cancel_penalty_is_pinned(amount: i128, penalty_bps: u32, min_fee: i128)
    ensures
        ({
            let rate = (amount * penalty_bps) / 10_000;
            let p = cancel_penalty(amount, penalty_bps, min_fee);
            &&& p <= amount
            &&& p >= rate || p == amount
            &&& p >= min_fee || p == amount
            &&& p <= rate || p <= min_fee
            &&& (rate <= amount && min_fee <= amount) ==> (p == rate || p == min_fee)
        }),
{
}

/// Where a cancellation's money goes: every transfer it makes moves the
/// deposit's token out of the vault, either the penalty (the cancel penalty
/// of the deposit's amount and rate under the minimum fee) to the fee
/// recipient (the depositor when none is set), or the rest to the
/// depositor.
pub proof fn law_cancel_pays_receivers(e: EnvView, depositor: Address, id: u32)
    requires
        cancel_refusal(e, depositor, id) is None,
    ensures
        ({
            let m = e.storage;
            let (token, amount, bps) = if m.deposits.contains_key((depositor, id)) {
                (m.deposits[(depositor, id)].token, m.deposits[(depositor, id)].amount, m.deposits[(
                    depositor,
                    id,
                )].penalty_bps)
            } else {
                (
                    m.ledger_deposits[(depositor, id)].token,
                    m.ledger_deposits[(depositor, id)].amount,
                    m.ledger_deposits[(depositor, id)].penalty_bps,
                )
            };
            let fee = if m.min_cancel_fee is Some { m.min_cancel_fee.unwrap() } else { 0 };
            let penalty = cancel_penalty(amount, bps, fee);
            let receiver = if m.fee_recipient is Some { m.fee_recipient.unwrap() } else { depositor };
            let after = after_cancel(e, depositor, id).transfers;
            &&& after.subrange(0, e.transfers.len() as int) == e.transfers
            &&& forall|i: int|
                e.transfers.len() <= i < after.len() ==> {
                    let t = #[trigger] after[i];
                    &&& t.token == token
                    &&& t.from == e.contract
                    &&& ((t.to == receiver && t.amount == penalty && i == e.transfers.len() && penalty > 0)
                        || (t.to == depositor && t.amount == amount - penalty))
                }
            &&& after.len() == e.transfers.len() + (if penalty > 0 { 1int } else { 0 }) + (if amount - penalty > 0 {
                1int
            } else {
                0
            })
        }),
{
    let after = after_cancel(e, depositor, id).transfers;
    assert(after.subrange(0, e.transfers.len() as int) =~= e.transfers);
}

/// `time_remaining` counts the seconds to a timestamp lock's unlock time,
/// or the remaining ledgers of a ledger lock at `LEDGER_SECONDS` each; it is
/// 0 once the lock has expired and for a missing deposit.
pub proof fn law_time_remaining_counts_down(e: EnvView, depositor: Address, id: u32)
    ensures
        e.storage.deposits.contains_key((depositor, id)) ==> time_remaining_of(e, depositor, id) == (if e.now()
            < e.storage.deposits[(depositor, id)].unlock_time {
            e.storage.deposits[(depositor, id)].unlock_time - e.now()
        } else {
            0
        }),
        (!e.storage.deposits.contains_key((depositor, id)) && e.storage.ledger_deposits.contains_key((depositor, id)))
            ==> time_remaining_of(e, depositor, id) == (if e.seq() < e.storage.ledger_deposits[(
            depositor,
            id,
        )].unlock_ledger {
            (e.storage.ledger_deposits[(depositor, id)].unlock_ledger - e.seq()) * LEDGER_SECONDS
        } else {
            0
        }),
        !exists_deposit(e, depositor, id) ==> time_remaining_of(e, depositor, id) == 0,
{
}

/// The deposits, ledger deposits, id counters and depositor index of `m2`
/// are those of `m1`: a settings change leaves every deposit alone.
pub open spec fn same_deposits(m1: VaultModel, m2: VaultModel) -> bool {
    &&& m2.deposits == m1.deposits
    &&& m2.ledger_deposits == m1.ledger_deposits
    &&& m2.counters == m1.counters
    &&& m2.depositors == m1.depositors
}

/// Pausing blocks every new deposit and nothing else; unpausing undoes it;
/// the unannounced switches set the flag to the same value.
pub proof fn law_pause_switches(
    e: EnvView,
    admin: Address,
    depositor: Address,
    token: Address,
    amount: i128,
    unlock_time: u64,
    unlock_ledger: u32,
    penalty_bps: u32,
    id: u32,
    top_up: i128,
    new_unlock_time: u64,
)
    ensures
        ({
            let p = after_pause(e, admin);
            &&& p.storage.paused
            &&& same_deposits(e.storage, p.storage)
            &&& p.events == e.events.push(Event::Paused { admin })
            &&& deposit_refusal(p, depositor, token, amount, unlock_time, penalty_bps) == Some(
                VaultError::ContractPaused,
            )
            &&& deposit_for_refusal(p, depositor, token, amount, unlock_time, penalty_bps) == Some(
                VaultError::ContractPaused,
            )
            &&& ledger_deposit_refusal(p, depositor, token, amount, unlock_ledger, penalty_bps) == Some(
                VaultError::ContractPaused,
            )
            &&& withdraw_refusal(p, depositor, id) == withdraw_refusal(e, depositor, id)
            &&& cancel_refusal(p, depositor, id) == cancel_refusal(e, depositor, id)
            &&& emergency_refusal(p, admin, depositor, id) == emergency_refusal(e, admin, depositor, id)
            &&& top_up_refusal(p, depositor, id, top_up) == top_up_refusal(e, depositor, id, top_up)
            &&& extend_lock_refusal(p, depositor, id, new_unlock_time) == extend_lock_refusal(
                e,
                depositor,
                id,
                new_unlock_time,
            )
            &&& !after_unpause(e, admin).storage.paused
            &&& same_deposits(e.storage, after_unpause(e, admin).storage)
            &&& (!e.storage.paused ==> after_unpause(p, admin).storage == e.storage)
            &&& after_set_paused(e, admin, true).storage == p.storage
            &&& after_set_paused(e, admin, false).storage == after_unpause(e, admin).storage
        }),
{
    let p = after_pause(e, admin);
    if !e.storage.paused {
        assert(after_unpause(p, admin).storage =~= e.storage);
    }
}

/// Freezing a depositor stops their own deposits, withdrawals (single or
/// batched) and cancellations, but not a deposit paid for them by someone
/// else, nor the admin's emergency withdrawal, nor anyone else; unfreezing
/// undoes it.
pub proof fn law_freeze_stops_only_that_depositor(
    e: EnvView,
    admin: Address,
    depositor: Address,
    other: Address,
    token: Address,
    amount: i128,
    unlock_time: u64,
    unlock_ledger: u32,
    penalty_bps: u32,
    id: u32,
    batch_len: nat,
)
    ensures
        ({
            let f = after_freeze_depositor(e, admin, depositor);
            &&& same_deposits(e.storage, f.storage)
            &&& (!e.storage.paused ==> deposit_refusal(f, depositor, token, amount, unlock_time, penalty_bps)
                == Some(VaultError::DepositorFrozen))
            &&& (!e.storage.paused ==> ledger_deposit_refusal(f, depositor, token, amount, unlock_ledger, penalty_bps)
                == Some(VaultError::DepositorFrozen))
            &&& deposit_for_refusal(f, depositor, token, amount, unlock_time, penalty_bps) == deposit_for_refusal(
                e,
                depositor,
                token,
                amount,
                unlock_time,
                penalty_bps,
            )
            &&& withdraw_refusal(f, depositor, id) == Some(VaultError::DepositorFrozen)
            &&& cancel_refusal(f, depositor, id) == Some(VaultError::DepositorFrozen)
            &&& (batch_len <= MAX_BATCH_SIZE ==> batch_withdraw_refusal(f, depositor, batch_len) == Some(
                VaultError::DepositorFrozen,
            ))
            &&& emergency_refusal(f, admin, depositor, id) == emergency_refusal(e, admin, depositor, id)
            &&& (other != depositor ==> {
                &&& withdraw_refusal(f, other, id) == withdraw_refusal(e, other, id)
                &&& cancel_refusal(f, other, id) == cancel_refusal(e, other, id)
                &&& deposit_refusal(f, other, token, amount, unlock_time, penalty_bps) == deposit_refusal(
                    e,
                    other,
                    token,
                    amount,
                    unlock_time,
                    penalty_bps,
                )
            })
            &&& (!e.storage.frozen.contains(depositor) ==> after_unfreeze_depositor(f, admin, depositor).storage
                == e.storage)
            &&& !after_unfreeze_depositor(e, admin, depositor).storage.frozen.contains(depositor)
            &&& same_deposits(e.storage, after_unfreeze_depositor(e, admin, depositor).storage)
        }),
{
    let f = after_freeze_depositor(e, admin, depositor);
    if !e.storage.frozen.contains(depositor) {
        assert(f.storage.frozen.remove(depositor) =~= e.storage.frozen);
        assert(after_unfreeze_depositor(f, admin, depositor).storage =~= e.storage);
    }
}

/// Freezing a token stops new deposits of that token (once the pause and
/// the depositor's freeze are checked) and nothing else; unfreezing undoes
/// it.
pub proof fn law_token_freeze_stops_only_new_deposits_of_it(
    e: EnvView,
    admin: Address,
    token: Address,
    other_token: Address,
    depositor: Address,
    amount: i128,
    unlock_time: u64,
    unlock_ledger: u32,
    penalty_bps: u32,
    id: u32,
    top_up: i128,
)
    ensures
        ({
            let f = after_freeze_token(e, admin, token);
            &&& same_deposits(e.storage, f.storage)
            &&& ((!e.storage.paused && !e.storage.frozen.contains(depositor)) ==> deposit_refusal(
                f,
                depositor,
                token,
                amount,
                unlock_time,
                penalty_bps,
            ) == Some(VaultError::TokenFrozen))
            &&& ((!e.storage.paused && !e.storage.frozen.contains(depositor)) ==> ledger_deposit_refusal(
                f,
                depositor,
                token,
                amount,
                unlock_ledger,
                penalty_bps,
            ) == Some(VaultError::TokenFrozen))
            &&& (!e.storage.paused ==> deposit_for_refusal(f, depositor, token, amount, unlock_time, penalty_bps)
                == Some(VaultError::TokenFrozen))
            &&& (other_token != token ==> deposit_refusal(f, depositor, other_token, amount, unlock_time, penalty_bps)
                == deposit_refusal(e, depositor, other_token, amount, unlock_time, penalty_bps))
            &&& withdraw_refusal(f, depositor, id) == withdraw_refusal(e, depositor, id)
            &&& cancel_refusal(f, depositor, id) == cancel_refusal(e, depositor, id)
            &&& top_up_refusal(f, depositor, id, top_up) == top_up_refusal(e, depositor, id, top_up)
            &&& (!e.storage.frozen_tokens.contains(token) ==> after_unfreeze_token(f, admin, token).storage
                == e.storage)
            &&& !after_unfreeze_token(e, admin, token).storage.frozen_tokens.contains(token)
        }),
{
    let f = after_freeze_token(e, admin, token);
    if !e.storage.frozen_tokens.contains(token) {
        assert(f.storage.frozen_tokens.remove(token) =~= e.storage.frozen_tokens);
        assert(after_unfreeze_token(f, admin, token).storage =~= e.storage);
    }
}

/// The admin sets the penalty cap to any rate up to 100%, after which no
/// deposit above that rate is accepted; and the minimum cancellation fee to
/// any amount that is not negative, after which cancellations are charged
/// at least that fee (up to the amount).
pub proof fn law_fee_settings(
    e: EnvView,
    caller: Address,
    bps: u32,
    fee: i128,
    depositor: Address,
    token: Address,
    amount: i128,
    unlock_time: u64,
    unlock_ledger: u32,
    penalty_bps: u32,
)
    ensures
        penalty_cap_refusal(e, caller, bps) is None <==> (e.storage.admin == Some(caller) && bps <= 10_000),
        (e.storage.admin == Some(caller) && bps > 10_000) ==> penalty_cap_refusal(e, caller, bps) == Some(
            VaultError::InvalidPenaltyBps,
        ),
        after_set_max_penalty_bps(e, caller, bps).storage.effective_max_penalty_bps() == bps,
        same_deposits(e.storage, after_set_max_penalty_bps(e, caller, bps).storage),
        deposit_refusal(after_set_max_penalty_bps(e, caller, bps), depositor, token, amount, unlock_time, penalty_bps)
            is None ==> penalty_bps <= bps,
        ledger_deposit_refusal(
            after_set_max_penalty_bps(e, caller, bps),
            depositor,
            token,
            amount,
            unlock_ledger,
            penalty_bps,
        ) is None ==> penalty_bps <= bps,
        min_fee_refusal(e, caller, fee) is None <==> (e.storage.admin == Some(caller) && fee >= 0),
        (e.storage.admin == Some(caller) && fee < 0) ==> min_fee_refusal(e, caller, fee) == Some(
            VaultError::InvalidAmount,
        ),
        after_set_min_cancel_fee(e, caller, fee).storage.effective_min_cancel_fee() == fee,
        same_deposits(e.storage, after_set_min_cancel_fee(e, caller, fee).storage),
{
}

/// The admin role changes hands only as the admin decides: the admin
/// nominates someone else (never itself), only the nominee can accept, the
/// admin can withdraw the nomination, and renouncing leaves no admin and no
/// nominee, after which nobody can accept or act as admin.
pub proof fn law_admin_handover(e: EnvView, caller: Address, new_admin: Address, someone: Address)
    ensures
        nomination_refusal(e, caller, new_admin) is None <==> (e.storage.admin == Some(caller) && new_admin
            != caller),
        (e.storage.admin == Some(caller) && new_admin == caller) ==> nomination_refusal(e, caller, new_admin)
            == Some(VaultError::InvalidAdmin),
        after_nomination(e, caller, new_admin).storage.admin == e.storage.admin,
        after_nomination(e, caller, new_admin).storage.pending_admin == Some(new_admin),
        acceptance_refusal(e, someone) is None <==> e.storage.pending_admin == Some(someone),
        after_acceptance(e, someone).storage.admin == Some(someone),
        after_acceptance(e, someone).storage.pending_admin is None,
        after_cancel_nomination(e, caller).storage.pending_admin is None,
        after_cancel_nomination(e, caller).storage.admin == e.storage.admin,
        after_renounce(e, caller).storage.admin is None,
        after_renounce(e, caller).storage.pending_admin is None,
        acceptance_refusal(after_renounce(e, caller), someone) == Some(VaultError::Unauthorized),
        admin_refusal(after_renounce(e, caller), someone) == Some(VaultError::Unauthorized),
        same_deposits(e.storage, after_nomination(e, caller, new_admin).storage),
        same_deposits(e.storage, after_acceptance(e, someone).storage),
        same_deposits(e.storage, after_renounce(e, caller).storage),
{
}

/// A deposit paid for someone else makes the checks of the depositor's own
/// deposit but the beneficiary's freeze: for a beneficiary who is not
/// frozen both give the same answer, and the beneficiary's freeze flag does
/// not change it.
pub proof fn law_deposit_for_skips_only_the_beneficiary_freeze(
    e: EnvView,
    depositor: Address,
    token: Address,
    amount: i128,
    unlock_time: u64,
    penalty_bps: u32,
    frozen: Set<Address>,
)
    ensures
        !e.storage.frozen.contains(depositor) ==> deposit_for_refusal(
            e,
            depositor,
            token,
            amount,
            unlock_time,
            penalty_bps,
        ) == deposit_refusal(e, depositor, token, amount, unlock_time, penalty_bps),
        deposit_for_refusal(
            e.with_storage(VaultModel { frozen, ..e.storage }),
            depositor,
            token,
            amount,
            unlock_time,
            penalty_bps,
        ) == deposit_for_refusal(e, depositor, token, amount, unlock_time, penalty_bps),
        (!e.storage.paused && e.storage.frozen.contains(depositor)) ==> deposit_refusal(
            e,
            depositor,
            token,
            amount,
            unlock_time,
            penalty_bps,
        ) == Some(VaultError::DepositorFrozen),
{
}

/// The token and amount of deposit `(depositor, id)`: its timestamp lock's
/// when it has one, else its ledger lock's.
pub open spec fn locked_funds(m: VaultModel, depositor: Address, id: u32) -> (Address, i128) {
    if m.deposits.contains_key((depositor, id)) {
        (m.deposits[(depositor, id)].token, m.deposits[(depositor, id)].amount)
    } else {
        (m.ledger_deposits[(depositor, id)].token, m.ledger_deposits[(depositor, id)].amount)
    }
}

/// Every release of a deposit (the owner's withdrawal, to the owner or to a
/// recipient, or the admin's emergency withdrawal) pays exactly the
/// deposit's locked amount in its token out of the vault, to the owner or
/// the chosen recipient, removes that deposit and leaves every other
/// deposit and every id counter as it was.
pub proof fn law_release_effects(e: EnvView, depositor: Address, id: u32, recipient: Address, admin: Address)
    requires
        e.storage.inv(),
        exists_deposit(e, depositor, id),
    ensures
        ({
            let (token, amount) = locked_funds(e.storage, depositor, id);
            let w = after_withdraw(e, depositor, id);
            let t = after_withdraw_to(e, depositor, id, recipient);
            let x = after_emergency_withdraw(e, admin, depositor, id);
            &&& w.transfers == e.transfers.push(Transfer { token, from: e.contract, to: depositor, amount })
            &&& t.transfers == e.transfers.push(Transfer { token, from: e.contract, to: recipient, amount })
            &&& x.transfers == e.transfers.push(Transfer { token, from: e.contract, to: depositor, amount })
            &&& w.storage == t.storage
            &&& w.storage == x.storage
            &&& !w.storage.deposits.contains_key((depositor, id))
            &&& !w.storage.ledger_deposits.contains_key((depositor, id))
            &&& forall|k: (Address, u32)| k != (depositor, id) ==> {
                &&& #[trigger] w.storage.deposits.get(k) == e.storage.deposits.get(k)
                &&& w.storage.ledger_deposits.get(k) == e.storage.ledger_deposits.get(k)
            }
            &&& w.storage.counters == e.storage.counters
        }),
{
    let k0 = (depositor, id);
    if e.storage.deposits.contains_key(k0) {
        assert(!e.storage.ledger_deposits.contains_key(k0));
    }
}

/// A new deposit stores exactly what was asked under the depositor's next
/// id, which is then used up, pulls exactly the amount from the payer into
/// the vault, and leaves every other deposit as it was.
pub proof fn law_deposit_effects(
    e: EnvView,
    payer: Address,
    depositor: Address,
    token: Address,
    amount: i128,
    unlock_time: u64,
    unlock_ledger: u32,
    penalty_bps: u32,
)
    requires
        e.storage.counter(depositor) < u32::MAX,
    ensures
        ({
            let id = e.storage.counter(depositor);
            let t = after_time_deposit(e, payer, depositor, token, amount, unlock_time, penalty_bps);
            let l = after_ledger_deposit(e, depositor, token, amount, unlock_ledger, penalty_bps);
            &&& t.storage.deposits[(depositor, id)] == (VaultEntry { token, amount, unlock_time, depositor, penalty_bps })
            &&& l.storage.ledger_deposits[(depositor, id)] == (LedgerVaultEntry {
                token,
                amount,
                unlock_ledger,
                depositor,
                penalty_bps,
            })
            &&& t.storage.counter(depositor) == id + 1
            &&& l.storage.counter(depositor) == id + 1
            &&& forall|a: Address| a != depositor ==> #[trigger] t.storage.counter(a) == e.storage.counter(a)
            &&& t.transfers == e.transfers.push(Transfer { token, from: payer, to: e.contract, amount })
            &&& l.transfers == e.transfers.push(Transfer { token, from: depositor, to: e.contract, amount })
            &&& forall|k: (Address, u32)| k != (depositor, id) ==> #[trigger] t.storage.deposits.get(k)
                == e.storage.deposits.get(k)
            &&& t.storage.ledger_deposits == e.storage.ledger_deposits
            &&& l.storage.deposits == e.storage.deposits
            &&& t.storage.depositors.contains(depositor)
            &&& l.storage.depositors.contains(depositor)
        }),
{
    let t = after_time_deposit(e, payer, depositor, token, amount, unlock_time, penalty_bps);
    let l = after_ledger_deposit(e, depositor, token, amount, unlock_ledger, penalty_bps);
    if e.storage.depositors.contains(depositor) {
    } else {
        assert(t.storage.depositors[t.storage.depositors.len() - 1] == depositor);
        assert(l.storage.depositors[l.storage.depositors.len() - 1] == depositor);
    }
}

} // verus!
