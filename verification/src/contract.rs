//! The vault's entry points.
//!
//! Each entry point runs against an [`Env`] and first asks for the
//! authorization of its caller, whatever happens next. A refused call returns
//! the error and leaves the environment as it was but for that authorization
//! request (the host rolls back the rest of a failed call); an accepted one
//! records the token transfers it asks for, its storage writes and its events.
use vstd::prelude::*;

use crate::constants::{MAX_BATCH_SIZE, MAX_DEPOSITORS_PAGE_SIZE, MAX_DEPOSIT_AMOUNT, MAX_LOCK_DURATION_SECS, MIN_LOCK_DURATION_SECS, LEDGER_SECONDS};
use crate::env::Env;
use crate::errors::VaultError;
use crate::events;
use crate::rules::{
    after_pause, after_unpause, after_set_paused, after_freeze_depositor, after_unfreeze_depositor,
    after_freeze_token, after_unfreeze_token, penalty_cap_refusal, after_set_max_penalty_bps, min_fee_refusal,
    after_set_min_cancel_fee, nomination_refusal, after_nomination, acceptance_refusal, after_acceptance,
    after_cancel_nomination, after_renounce, deposit_refusal, deposit_for_refusal,
    after_cancel, after_emergency_withdraw, after_initialize, after_ledger_deposit, after_time_deposit,
    after_batch_withdraw, batch_withdraw_refusal, after_withdraw, after_withdraw_to, emergency_batch, emergency_batch_refusal,
    emergency_item, withdraw_batch, withdraw_item, top_up_refusal, after_top_up, extend_lock_refusal,
    after_extend_lock, migrate_to_ledger_refusal, after_migrate_to_ledger, migrate_to_time_refusal,
    after_migrate_to_time, admin_refusal, after_setting, saturating_diff, time_remaining_of, vault_info,
    vault_infos, all_vaults, cancel_fits, cancel_penalty_of, cancel_refusal,
    common_deposit_refusal, deposit_fits, emergency_refusal, held, held_terms, initialize_refusal,
    ledger_deposit_refusal, lemma_released_inv, lemma_stored_deposit_inv, max_lock_ledgers,
    min_lock_ledgers, paid_out, released, time_deposit_refusal, unlocked,
    withdraw_refusal,
};
use crate::storage;
use crate::types::{Address, Event, LedgerVaultEntry, VaultEntry, VaultInfo, VaultStatus, WithdrawResult};

verus! {

/// The time-lock vault contract.
pub struct TimeLockVault;

impl TimeLockVault {
    // ----------------------------------------------------------------
    //  Initialization
    // ----------------------------------------------------------------
    /// Initializes the vault with its admin and fee recipient, and optionally
    /// with deployment-specific limits. Must be called once, right after
    /// deployment.
    ///
    /// Errors: `Unauthorized` when the vault is already initialized;
    /// `InvalidAmount` for a non-positive `max_deposit`;
    /// `LockDurationTooLong` for a zero `max_lock_secs`.
    pub fn initialize(
        env: &mut Env,
        admin: Address,
        fee_recipient: Address,
        max_deposit: Option<i128>,
        max_lock_secs: Option<u64>,
    ) -> (r: Result<(), VaultError>)
        requires
            old(env).inv(),
        ensures
            final(env).inv(),
            old(env)@.storage.counters_grow(final(env)@.storage),
            match r {
                Ok(()) => initialize_refusal(old(env)@, max_deposit, max_lock_secs) is None
                    && final(env)@ == after_initialize(old(env)@, admin, fee_recipient, max_deposit, max_lock_secs),
                Err(err) => initialize_refusal(old(env)@, max_deposit, max_lock_secs) == Some(err)
                    && final(env)@ == old(env)@.auth(admin),
            },
    {
        let ghost e0 = env@;
        env.require_auth(&admin);
        if storage::is_initialized(env) {
            return Err(VaultError::Unauthorized);
        }
        if let Some(v) = max_deposit {
            if v <= 0 {
                return Err(VaultError::InvalidAmount);
            }
        }
        if let Some(v) = max_lock_secs {
            if v == 0 {
                return Err(VaultError::LockDurationTooLong);
            }
        }
        storage::set_admin(env, &admin);
        storage::set_initialized(env);
        storage::set_fee_recipient(env, &fee_recipient);
        if let Some(v) = max_deposit {
            storage::set_max_deposit(env, v);
        }
        if let Some(v) = max_lock_secs {
            storage::set_max_lock_secs(env, v);
        }
        proof {
            assert(env@ =~= after_initialize(old(env)@, admin, fee_recipient, max_deposit, max_lock_secs));
            crate::rules::lemma_same_deposits_same_activity(old(env)@.storage, env@.storage);
        }
        Ok(())
    }

    // ----------------------------------------------------------------
    //  Deposits
    // ----------------------------------------------------------------
    /// The checks shared by every kind of deposit, in order.
    fn check_new_deposit(
        env: &Env,
        depositor: &Address,
        token: &Address,
        amount: i128,
        penalty_bps: u32,
        check_frozen: bool,
    ) -> (r: Option<VaultError>)
        requires
            env.inv(),
        ensures
            r == common_deposit_refusal(env@.storage, *depositor, *token, amount, penalty_bps, check_frozen),
    {
        if storage::is_paused(env) {
            return Some(VaultError::ContractPaused);
        }
        if check_frozen && storage::is_frozen(env, depositor) {
            return Some(VaultError::DepositorFrozen);
        }
        if storage::is_token_frozen(env, token) {
            return Some(VaultError::TokenFrozen);
        }
        if amount <= 0 {
            return Some(VaultError::InvalidAmount);
        }
        let max_deposit = match storage::get_max_deposit(env) {
            Some(v) => v,
            None => MAX_DEPOSIT_AMOUNT,
        };
        if amount > max_deposit {
            return Some(VaultError::AmountTooLarge);
        }
        let effective_max_bps: u32 = match storage::get_max_penalty_bps(env) {
            Some(v) => v,
            None => 10_000,
        };
        if penalty_bps > effective_max_bps {
            return Some(VaultError::InvalidPenaltyBps);
        }
        None
    }

    /// Locks `amount` of `token`, paid by `payer`, for `depositor` until
    /// `unlock_time`.
    fn lock_until_time(
        env: &mut Env,
        payer: Address,
        depositor: Address,
        token: Address,
        amount: i128,
        unlock_time: u64,
        penalty_bps: u32,
        check_frozen: bool,
    ) -> (r: Result<u32, VaultError>)
        requires
            old(env).inv(),
            time_deposit_refusal(old(env)@, depositor, token, amount, unlock_time, penalty_bps, check_frozen)
                is None ==> deposit_fits(old(env)@.storage, depositor),
        ensures
            final(env).inv(),
            old(env)@.storage.counters_grow(final(env)@.storage),
            match r {
                Ok(id) => time_deposit_refusal(
                    old(env)@,
                    depositor,
                    token,
                    amount,
                    unlock_time,
                    penalty_bps,
                    check_frozen,
                ) is None && id == old(env)@.storage.counter(depositor) && final(env)@ == after_time_deposit(
                    old(env)@,
                    payer,
                    depositor,
                    token,
                    amount,
                    unlock_time,
                    penalty_bps,
                ),
                Err(err) => time_deposit_refusal(
                    old(env)@,
                    depositor,
                    token,
                    amount,
                    unlock_time,
                    penalty_bps,
                    check_frozen,
                ) == Some(err) && final(env)@ == old(env)@.auth(payer),
            },
    {
        let ghost e0 = env@;
        env.require_auth(&payer);
        if let Some(err) = Self::check_new_deposit(env, &depositor, &token, amount, penalty_bps, check_frozen) {
            return Err(err);
        }
        let now = env.timestamp();
        if unlock_time <= now {
            return Err(VaultError::UnlockTimeNotInFuture);
        }
        let max_lock = match storage::get_max_lock_secs(env) {
            Some(v) => v,
            None => MAX_LOCK_DURATION_SECS,
        };
        let lock_duration: u64 = unlock_time - now;
        if lock_duration > max_lock {
            return Err(VaultError::LockDurationTooLong);
        }
        if lock_duration < MIN_LOCK_DURATION_SECS {
            return Err(VaultError::LockDurationTooShort);
        }
        proof {
            lemma_stored_deposit_inv(
                e0.storage,
                depositor,
                true,
                VaultEntry { token, amount, unlock_time, depositor, penalty_bps },
                LedgerVaultEntry { token, amount, unlock_ledger: 0, depositor, penalty_bps },
            );
        }
        let contract = env.current_contract_address();
        env.transfer(&token, &payer, &contract, amount);
        let deposit_id = storage::next_deposit_id(env, &depositor);
        let entry = VaultEntry { token, amount, unlock_time, depositor, penalty_bps };
        proof {
            assert(!e0.storage.ledger_deposits.contains_key((depositor, deposit_id)));
        }
        storage::set_deposit(env, &depositor, deposit_id, &entry);
        storage::add_depositor(env, &depositor);
        events::deposit(env, &depositor, &token, deposit_id, amount, unlock_time);
        proof {
            assert(env@ =~= after_time_deposit(e0, payer, depositor, token, amount, unlock_time, penalty_bps));
        }
        Ok(deposit_id)
    }

    /// Locks `amount` of `token` from `depositor` until `unlock_time` (Unix
    /// seconds); returns the new deposit's id.
    ///
    /// Errors, in the order checked: `ContractPaused`, `DepositorFrozen`,
    /// `TokenFrozen`, `InvalidAmount` (not positive), `AmountTooLarge` (above
    /// the deposit cap), `InvalidPenaltyBps` (above the penalty cap),
    /// `UnlockTimeNotInFuture`, `LockDurationTooLong`, `LockDurationTooShort`.
    pub fn deposit(
        env: &mut Env,
        depositor: Address,
        token: Address,
        amount: i128,
        unlock_time: u64,
        penalty_bps: u32,
    ) -> (r: Result<u32, VaultError>)
        requires
            old(env).inv(),
            deposit_refusal(old(env)@, depositor, token, amount, unlock_time, penalty_bps) is None
                ==> deposit_fits(old(env)@.storage, depositor),
        ensures
            final(env).inv(),
            old(env)@.storage.counters_grow(final(env)@.storage),
            match r {
                Ok(id) => deposit_refusal(old(env)@, depositor, token, amount, unlock_time, penalty_bps)
                    is None && id == old(env)@.storage.counter(depositor) && final(env)@ == after_time_deposit(
                    old(env)@,
                    depositor,
                    depositor,
                    token,
                    amount,
                    unlock_time,
                    penalty_bps,
                ),
                Err(err) => deposit_refusal(old(env)@, depositor, token, amount, unlock_time, penalty_bps)
                    == Some(err) && final(env)@ == old(env)@.auth(depositor),
            },
    {
        Self::lock_until_time(env, depositor, depositor, token, amount, unlock_time, penalty_bps, true)
    }

    /// Locks `amount` of `token`, paid by `payer`, for `depositor`: the
    /// deposit belongs to `depositor`, who alone can withdraw or cancel it.
    /// The checks are those of `deposit`, without the freeze check.
    pub fn deposit_for(
        env: &mut Env,
        payer: Address,
        depositor: Address,
        token: Address,
        amount: i128,
        unlock_time: u64,
        penalty_bps: u32,
    ) -> (r: Result<u32, VaultError>)
        requires
            old(env).inv(),
            deposit_for_refusal(old(env)@, depositor, token, amount, unlock_time, penalty_bps) is None
                ==> deposit_fits(old(env)@.storage, depositor),
        ensures
            final(env).inv(),
            old(env)@.storage.counters_grow(final(env)@.storage),
            match r {
                Ok(id) => deposit_for_refusal(old(env)@, depositor, token, amount, unlock_time, penalty_bps)
                    is None && id == old(env)@.storage.counter(depositor) && final(env)@ == after_time_deposit(
                    old(env)@,
                    payer,
                    depositor,
                    token,
                    amount,
                    unlock_time,
                    penalty_bps,
                ),
                Err(err) => deposit_for_refusal(old(env)@, depositor, token, amount, unlock_time, penalty_bps)
                    == Some(err) && final(env)@ == old(env)@.auth(payer),
            },
    {
        Self::lock_until_time(env, payer, depositor, token, amount, unlock_time, penalty_bps, false)
    }

    /// Locks `amount` of `token` from `depositor` until the ledger sequence
    /// reaches `unlock_ledger`; returns the new deposit's id. The lock must
    /// span between the minimum and maximum lock durations, counted in
    /// ledgers of `LEDGER_SECONDS` each.
    pub fn deposit_by_ledger(
        env: &mut Env,
        depositor: Address,
        token: Address,
        amount: i128,
        unlock_ledger: u32,
        penalty_bps: u32,
    ) -> (r: Result<u32, VaultError>)
        requires
            old(env).inv(),
            ledger_deposit_refusal(old(env)@, depositor, token, amount, unlock_ledger, penalty_bps) is None
                ==> deposit_fits(old(env)@.storage, depositor),
        ensures
            final(env).inv(),
            old(env)@.storage.counters_grow(final(env)@.storage),
            match r {
                Ok(id) => ledger_deposit_refusal(old(env)@, depositor, token, amount, unlock_ledger, penalty_bps)
                    is None && id == old(env)@.storage.counter(depositor) && final(env)@ == after_ledger_deposit(
                    old(env)@,
                    depositor,
                    token,
                    amount,
                    unlock_ledger,
                    penalty_bps,
                ),
                Err(err) => ledger_deposit_refusal(old(env)@, depositor, token, amount, unlock_ledger, penalty_bps)
                    == Some(err) && final(env)@ == old(env)@.auth(depositor),
            },
    {
        let ghost e0 = env@;
        env.require_auth(&depositor);
        if let Some(err) = Self::check_new_deposit(env, &depositor, &token, amount, penalty_bps, true) {
            return Err(err);
        }
        let current_ledger = env.sequence();
        if unlock_ledger <= current_ledger {
            return Err(VaultError::UnlockTimeNotInFuture);
        }
        let lock_ledgers: u32 = unlock_ledger - current_ledger;
        let max_lock = match storage::get_max_lock_secs(env) {
            Some(v) => v,
            None => MAX_LOCK_DURATION_SECS,
        };
        let max_lock_ledgers: u64 = max_lock / LEDGER_SECONDS;
        if lock_ledgers as u64 > max_lock_ledgers {
            return Err(VaultError::LockDurationTooLong);
        }
        let min_lock_ledgers = (MIN_LOCK_DURATION_SECS / LEDGER_SECONDS) as u32;
        if lock_ledgers < min_lock_ledgers {
            return Err(VaultError::LockDurationTooShort);
        }
        proof {
            lemma_stored_deposit_inv(
                e0.storage,
                depositor,
                false,
                VaultEntry { token, amount, unlock_time: 0, depositor, penalty_bps },
                LedgerVaultEntry { token, amount, unlock_ledger, depositor, penalty_bps },
            );
        }
        let contract = env.current_contract_address();
        env.transfer(&token, &depositor, &contract, amount);
        let deposit_id = storage::next_deposit_id(env, &depositor);
        let entry = LedgerVaultEntry { token, amount, unlock_ledger, depositor, penalty_bps };
        proof {
            assert(!e0.storage.deposits.contains_key((depositor, deposit_id)));
        }
        storage::set_deposit_by_ledger(env, &depositor, deposit_id, &entry);
        storage::add_depositor(env, &depositor);
        events::deposit(env, &depositor, &token, deposit_id, amount, unlock_ledger as u64);
        proof {
            assert(env@ =~= after_ledger_deposit(e0, depositor, token, amount, unlock_ledger, penalty_bps));
        }
        Ok(deposit_id)
    }

    // ----------------------------------------------------------------
    //  Releasing deposits
    // ----------------------------------------------------------------
    /// The token and amount of deposit `(depositor, deposit_id)`, timestamp
    /// lock first.
    fn find_held(env: &Env, depositor: &Address, deposit_id: u32) -> (r: Option<(Address, i128)>)
        requires
            env.inv(),
        ensures
            r == held(env@.storage, *depositor, deposit_id),
    {
        if let Some(entry) = storage::get_deposit_readonly(env, depositor, deposit_id) {
            return Some((entry.token, entry.amount));
        }
        if let Some(entry) = storage::get_deposit_by_ledger_readonly(env, depositor, deposit_id) {
            return Some((entry.token, entry.amount));
        }
        None
    }

    /// Whether deposit `(depositor, deposit_id)` has reached its unlock time
    /// (or ledger).
    fn is_unlocked(env: &Env, depositor: &Address, deposit_id: u32) -> (r: bool)
        requires
            env.inv(),
        ensures
            r == unlocked(env@, *depositor, deposit_id),
    {
        if let Some(entry) = storage::get_deposit_readonly(env, depositor, deposit_id) {
            return env.timestamp() >= entry.unlock_time;
        }
        if let Some(entry) = storage::get_deposit_by_ledger_readonly(env, depositor, deposit_id) {
            return env.sequence() >= entry.unlock_ledger;
        }
        false
    }

    /// Removes deposit `(depositor, deposit_id)` (unlisting the depositor if
    /// it was the last) and pays its amount out of the vault to `recipient`.
    fn pay_out(env: &mut Env, depositor: &Address, deposit_id: u32, recipient: &Address) -> (r: (Address, i128))
        requires
            old(env).inv(),
            held(old(env)@.storage, *depositor, deposit_id) is Some,
        ensures
            final(env).inv(),
            old(env)@.storage.counters_grow(final(env)@.storage),
            r == held(old(env)@.storage, *depositor, deposit_id).unwrap(),
            final(env)@ == paid_out(old(env)@, *depositor, deposit_id, *recipient),
            final(env)@.storage.counters == old(env)@.storage.counters,
    {
        let ghost e0 = env@;
        let (token, amount) = Self::take_deposit(env, depositor, deposit_id);
        let contract = env.current_contract_address();
        env.transfer(&token, &contract, recipient, amount);
        proof {
            assert(env@ =~= paid_out(e0, *depositor, deposit_id, *recipient));
        }
        (token, amount)
    }

    /// Withdraws deposit `deposit_id` of `depositor` once it is unlocked:
    /// the whole amount goes back to `depositor`.
    ///
    /// Errors: `DepositorFrozen`; `NoDepositFound` (no such deposit of
    /// either kind); `FundsStillLocked` (before the unlock time or ledger).
    pub fn withdraw(env: &mut Env, depositor: Address, deposit_id: u32) -> (r: Result<(), VaultError>)
        requires
            old(env).inv(),
        ensures
            final(env).inv(),
            old(env)@.storage.counters_grow(final(env)@.storage),
            match r {
                Ok(()) => withdraw_refusal(old(env)@, depositor, deposit_id) is None
                    && final(env)@ == after_withdraw(old(env)@, depositor, deposit_id),
                Err(err) => withdraw_refusal(old(env)@, depositor, deposit_id) == Some(err)
                    && final(env)@ == old(env)@.auth(depositor),
            },
    {
        let ghost e0 = env@;
        env.require_auth(&depositor);
        if storage::is_frozen(env, &depositor) {
            return Err(VaultError::DepositorFrozen);
        }
        if Self::find_held(env, &depositor, deposit_id).is_none() {
            return Err(VaultError::NoDepositFound);
        }
        if !Self::is_unlocked(env, &depositor, deposit_id) {
            return Err(VaultError::FundsStillLocked);
        }
        let (token, amount) = Self::pay_out(env, &depositor, deposit_id, &depositor);
        events::withdraw(env, &depositor, &token, deposit_id, amount);
        proof {
            assert(env@ =~= after_withdraw(e0, depositor, deposit_id));
        }
        Ok(())
    }

    /// Withdraws deposit `deposit_id` of `depositor` once it is unlocked,
    /// sending the whole amount to `recipient`. Errors as for `withdraw`.
    pub fn withdraw_to(env: &mut Env, depositor: Address, deposit_id: u32, recipient: Address) -> (r: Result<(), VaultError>)
        requires
            old(env).inv(),
        ensures
            final(env).inv(),
            old(env)@.storage.counters_grow(final(env)@.storage),
            match r {
                Ok(()) => withdraw_refusal(old(env)@, depositor, deposit_id) is None
                    && final(env)@ == after_withdraw_to(old(env)@, depositor, deposit_id, recipient),
                Err(err) => withdraw_refusal(old(env)@, depositor, deposit_id) == Some(err)
                    && final(env)@ == old(env)@.auth(depositor),
            },
    {
        let ghost e0 = env@;
        env.require_auth(&depositor);
        if storage::is_frozen(env, &depositor) {
            return Err(VaultError::DepositorFrozen);
        }
        if Self::find_held(env, &depositor, deposit_id).is_none() {
            return Err(VaultError::NoDepositFound);
        }
        if !Self::is_unlocked(env, &depositor, deposit_id) {
            return Err(VaultError::FundsStillLocked);
        }
        let (token, amount) = Self::pay_out(env, &depositor, deposit_id, &recipient);
        events::withdraw_to(env, &depositor, &recipient, &token, deposit_id, amount);
        proof {
            assert(env@ =~= after_withdraw_to(e0, depositor, deposit_id, recipient));
        }
        Ok(())
    }

    /// Admin only: releases a deposit regardless of its lock. The funds
    /// always go back to the depositor, never to the admin.
    ///
    /// Errors: `Unauthorized` (caller is not the admin); `NoDepositFound`.
    pub fn emergency_withdraw(env: &mut Env, admin: Address, depositor: Address, deposit_id: u32) -> (r: Result<(), VaultError>)
        requires
            old(env).inv(),
        ensures
            final(env).inv(),
            old(env)@.storage.counters_grow(final(env)@.storage),
            match r {
                Ok(()) => emergency_refusal(old(env)@, admin, depositor, deposit_id) is None
                    && final(env)@ == after_emergency_withdraw(old(env)@, admin, depositor, deposit_id),
                Err(err) => emergency_refusal(old(env)@, admin, depositor, deposit_id) == Some(err)
                    && final(env)@ == old(env)@.auth(admin),
            },
    {
        let ghost e0 = env@;
        env.require_auth(&admin);
        storage::require_admin(env, &admin)?;
        if Self::find_held(env, &depositor, deposit_id).is_none() {
            return Err(VaultError::NoDepositFound);
        }
        let (token, amount) = Self::pay_out(env, &depositor, deposit_id, &depositor);
        events::emergency_withdraw(env, &admin, &depositor, &token, deposit_id, amount);
        proof {
            assert(env@ =~= after_emergency_withdraw(e0, admin, depositor, deposit_id));
        }
        Ok(())
    }

    // ----------------------------------------------------------------
    //  Cancellation
    // ----------------------------------------------------------------
    /// Cancels an active deposit before its unlock time: the penalty
    /// (`penalty_bps` of the amount, at least the minimum cancel fee, at most
    /// the whole amount) goes to the fee recipient (the depositor when none
    /// is set) and the rest back to the depositor.
    ///
    /// Errors: `DepositorFrozen`; `NoDepositFound`; `FundsAlreadyUnlocked`
    /// (the lock has expired: use `withdraw`).
    pub fn cancel_deposit(env: &mut Env, depositor: Address, deposit_id: u32) -> (r: Result<(), VaultError>)
        requires
            old(env).inv(),
            cancel_refusal(old(env)@, depositor, deposit_id) is None ==> cancel_fits(old(env)@.storage, depositor, deposit_id),
        ensures
            final(env).inv(),
            old(env)@.storage.counters_grow(final(env)@.storage),
            match r {
                Ok(()) => cancel_refusal(old(env)@, depositor, deposit_id) is None
                    && final(env)@ == after_cancel(old(env)@, depositor, deposit_id),
                Err(err) => cancel_refusal(old(env)@, depositor, deposit_id) == Some(err)
                    && final(env)@ == old(env)@.auth(depositor),
            },
    {
        let ghost e0 = env@;
        env.require_auth(&depositor);
        if storage::is_frozen(env, &depositor) {
            return Err(VaultError::DepositorFrozen);
        }
        let (amount, penalty_bps): (i128, u32) = match storage::get_deposit(env, &depositor, deposit_id) {
            Some(entry) => (entry.amount, entry.penalty_bps),
            None => match storage::get_deposit_by_ledger_readonly(env, &depositor, deposit_id) {
                Some(entry) => (entry.amount, entry.penalty_bps),
                None => {
                    return Err(VaultError::NoDepositFound);
                },
            },
        };
        if Self::is_unlocked(env, &depositor, deposit_id) {
            return Err(VaultError::FundsAlreadyUnlocked);
        }
        proof {
            assert(held_terms(e0.storage, depositor, deposit_id) == (amount, penalty_bps));
            assert(0 <= penalty_bps <= 10_000);
            assert(amount > 0);
            assert(amount * penalty_bps >= 0) by (nonlinear_arith)
                requires
                    amount > 0,
                    penalty_bps >= 0,
            ;
        }
        let contract = env.current_contract_address();
        let (token, _) = Self::take_deposit(env, &depositor, deposit_id);
        let bps_penalty: i128 = (amount * (penalty_bps as i128)) / 10_000;
        let min_fee: i128 = match storage::get_min_cancel_fee(env) {
            Some(v) => v,
            None => 0,
        };
        let at_least = if bps_penalty >= min_fee { bps_penalty } else { min_fee };
        let penalty = if at_least <= amount { at_least } else { amount };
        let refund = amount - penalty;
        if penalty > 0 {
            let fee_recipient = match storage::get_fee_recipient(env) {
                Some(r) => r,
                None => depositor,
            };
            env.transfer(&token, &contract, &fee_recipient, penalty);
        }
        if refund > 0 {
            env.transfer(&token, &contract, &depositor, refund);
        }
        events::deposit_cancelled(env, &depositor, &token, amount, penalty);
        proof {
            assert(penalty == cancel_penalty_of(e0.storage, depositor, deposit_id));
            assert(env@ =~= after_cancel(e0, depositor, deposit_id));
        }
        Ok(())
    }

    /// Removes deposit `(depositor, deposit_id)` from storage, unlisting the
    /// depositor if it was the last, and returns its token and amount; no
    /// funds move.
    fn take_deposit(env: &mut Env, depositor: &Address, deposit_id: u32) -> (r: (Address, i128))
        requires
            old(env).inv(),
            held(old(env)@.storage, *depositor, deposit_id) is Some,
        ensures
            final(env).inv(),
            old(env)@.storage.counters_grow(final(env)@.storage),
            r == held(old(env)@.storage, *depositor, deposit_id).unwrap(),
            final(env)@ == old(env)@.with_storage(released(old(env)@.storage, *depositor, deposit_id)),
            final(env)@.storage.counters == old(env)@.storage.counters,
    {
        let ghost e0 = env@;
        proof {
            lemma_released_inv(e0.storage, *depositor, deposit_id);
        }
        let r = match storage::get_deposit_readonly(env, depositor, deposit_id) {
            Some(entry) => {
                storage::remove_deposit(env, depositor, deposit_id);
                (entry.token, entry.amount)
            },
            None => {
                match storage::get_deposit_by_ledger_readonly(env, depositor, deposit_id) {
                    Some(entry) => {
                        storage::remove_deposit_by_ledger(env, depositor, deposit_id);
                        (entry.token, entry.amount)
                    },
                    None => {
                        proof {
                            assert(false);
                        }
                        (*depositor, 0)
                    },
                }
            },
        };
        if !storage::has_any_deposit(env, depositor) {
            storage::remove_depositor(env, depositor);
        }
        proof {
            assert(env@ =~= e0.with_storage(released(e0.storage, *depositor, deposit_id)));
        }
        r
    }

    // ----------------------------------------------------------------
    //  Batches
    // ----------------------------------------------------------------
    /// Admin only: releases up to `MAX_BATCH_SIZE` deposits regardless of
    /// their locks, each back to its depositor, and reports per item whether
    /// a deposit was found.
    ///
    /// Errors: `Unauthorized`; `BatchTooLarge`.
    pub fn batch_emergency_withdraw(
        env: &mut Env,
        admin: Address,
        depositors: Vec<(Address, u32)>,
    ) -> (r: Result<Vec<WithdrawResult>, VaultError>)
        requires
            old(env).inv(),
        ensures
            final(env).inv(),
            old(env)@.storage.counters_grow(final(env)@.storage),
            match r {
                Ok(results) => emergency_batch_refusal(old(env)@, admin, depositors@.len()) is None && (
                final(env)@, results@) == emergency_batch(old(env)@.auth(admin), admin, depositors@),
                Err(err) => emergency_batch_refusal(old(env)@, admin, depositors@.len()) == Some(err)
                    && final(env)@ == old(env)@.auth(admin),
            },
    {
        let ghost e0 = env@;
        env.require_auth(&admin);
        storage::require_admin(env, &admin)?;
        if depositors.len() > MAX_BATCH_SIZE as usize {
            return Err(VaultError::BatchTooLarge);
        }
        let mut results: Vec<WithdrawResult> = Vec::new();
        let n = depositors.len();
        let mut i: usize = 0;
        while i < n
            invariant
                env.inv(),
                i <= n,
                n == depositors@.len(),
                (env@, results@) == emergency_batch(e0.auth(admin), admin, depositors@.subrange(0, i as int)),
                e0.storage.counters == env@.storage.counters,
            decreases n - i,
        {
            let (depositor, deposit_id) = depositors[i];
            let ghost prefix = depositors@.subrange(0, i as int);
            let ghost e_before = env@;
            match Self::find_held(env, &depositor, deposit_id) {
                Some((_, _)) => {
                    let (token, amount) = Self::pay_out(env, &depositor, deposit_id, &depositor);
                    events::emergency_withdraw(env, &admin, &depositor, &token, deposit_id, amount);
                    results.push(WithdrawResult { depositor, deposit_id, success: true, amount, token });
                },
                None => {
                    results.push(
                        WithdrawResult { depositor, deposit_id, success: false, amount: 0, token: depositor },
                    );
                },
            }
            proof {
                assert(depositors@.subrange(0, i + 1).drop_last() =~= prefix);
                assert(depositors@.subrange(0, i + 1).last() == (depositor, deposit_id));
                assert(env@ =~= emergency_item(e_before, admin, depositor, deposit_id).0);
            }
            i = i + 1;
        }
        proof {
            assert(depositors@.subrange(0, n as int) =~= depositors@);
        }
        Ok(results)
    }

    /// Withdraws up to `MAX_BATCH_SIZE` of `depositor`'s deposits at once:
    /// each unlocked one is paid out; locked or missing ones are reported as
    /// failures.
    ///
    /// Errors: `BatchTooLarge`; `DepositorFrozen` (a frozen depositor cannot
    /// withdraw; only the admin's emergency withdrawal releases its funds).
    pub fn batch_withdraw(
        env: &mut Env,
        depositor: Address,
        deposit_ids: Vec<u32>,
    ) -> (r: Result<Vec<WithdrawResult>, VaultError>)
        requires
            old(env).inv(),
        ensures
            final(env).inv(),
            old(env)@.storage.counters_grow(final(env)@.storage),
            match r {
                Ok(results) => batch_withdraw_refusal(old(env)@, depositor, deposit_ids@.len()) is None
                    && results@ == withdraw_batch(
                    old(env)@.auth(depositor),
                    depositor,
                    deposit_ids@,
                ).1 && final(env)@ == after_batch_withdraw(old(env)@, depositor, deposit_ids@),
                Err(err) => batch_withdraw_refusal(old(env)@, depositor, deposit_ids@.len()) == Some(err)
                    && final(env)@ == old(env)@.auth(depositor),
            },
    {
        let ghost e0 = env@;
        env.require_auth(&depositor);
        if deposit_ids.len() > MAX_BATCH_SIZE as usize {
            return Err(VaultError::BatchTooLarge);
        }
        if storage::is_frozen(env, &depositor) {
            return Err(VaultError::DepositorFrozen);
        }
        let mut results: Vec<WithdrawResult> = Vec::new();
        let n = deposit_ids.len();
        let mut i: usize = 0;
        while i < n
            invariant
                env.inv(),
                i <= n,
                n == deposit_ids@.len(),
                n <= MAX_BATCH_SIZE,
                (env@, results@) == withdraw_batch(e0.auth(depositor), depositor, deposit_ids@.subrange(0, i as int)),
                e0.storage.counters == env@.storage.counters,
            decreases n - i,
        {
            let deposit_id = deposit_ids[i];
            let ghost prefix = deposit_ids@.subrange(0, i as int);
            let ghost e_before = env@;
            match Self::find_held(env, &depositor, deposit_id) {
                Some((token, _)) => {
                    if Self::is_unlocked(env, &depositor, deposit_id) {
                        let (token, amount) = Self::pay_out(env, &depositor, deposit_id, &depositor);
                        results.push(WithdrawResult { depositor, deposit_id, success: true, amount, token });
                    } else {
                        results.push(WithdrawResult { depositor, deposit_id, success: false, amount: 0, token });
                    }
                },
                None => {
                    results.push(
                        WithdrawResult { depositor, deposit_id, success: false, amount: 0, token: depositor },
                    );
                },
            }
            proof {
                assert(deposit_ids@.subrange(0, i + 1).drop_last() =~= prefix);
                assert(deposit_ids@.subrange(0, i + 1).last() == deposit_id);
                assert(env@ =~= withdraw_item(e_before, depositor, deposit_id).0);
            }
            i = i + 1;
        }
        proof {
            assert(deposit_ids@.subrange(0, n as int) =~= deposit_ids@);
            crate::rules::lemma_withdraw_batch_len(e0.auth(depositor), depositor, deposit_ids@);
        }
        let count = results.len() as u32;
        events::batch_withdraw(env, &depositor, count);
        Ok(results)
    }

    // ----------------------------------------------------------------
    //  Changing an active deposit
    // ----------------------------------------------------------------
    /// Adds `amount` to the timestamp-locked deposit `(depositor, deposit_id)`;
    /// the unlock time is unchanged. Returns the new total.
    ///
    /// Errors: `InvalidAmount` (not positive); `NoDepositFound`;
    /// `AmountTooLarge` (the total overflows or exceeds the deposit cap).
    pub fn top_up(env: &mut Env, depositor: Address, deposit_id: u32, amount: i128) -> (r: Result<i128, VaultError>)
        requires
            old(env).inv(),
        ensures
            final(env).inv(),
            old(env)@.storage.counters_grow(final(env)@.storage),
            match r {
                Ok(total) => top_up_refusal(old(env)@, depositor, deposit_id, amount) is None
                    && total == old(env)@.storage.deposits[(depositor, deposit_id)].amount + amount
                    && final(env)@ == after_top_up(old(env)@, depositor, deposit_id, amount),
                Err(err) => top_up_refusal(old(env)@, depositor, deposit_id, amount) == Some(err)
                    && final(env)@ == old(env)@.auth(depositor),
            },
    {
        let ghost e0 = env@;
        env.require_auth(&depositor);
        if amount <= 0 {
            return Err(VaultError::InvalidAmount);
        }
        let max_deposit = match storage::get_max_deposit(env) {
            Some(v) => v,
            None => MAX_DEPOSIT_AMOUNT,
        };
        let mut entry = match storage::get_deposit(env, &depositor, deposit_id) {
            Some(e) => e,
            None => {
                return Err(VaultError::NoDepositFound);
            },
        };
        let new_total = match entry.amount.checked_add(amount) {
            Some(t) => t,
            None => {
                return Err(VaultError::AmountTooLarge);
            },
        };
        if new_total > max_deposit {
            return Err(VaultError::AmountTooLarge);
        }
        let contract = env.current_contract_address();
        env.transfer(&entry.token, &depositor, &contract, amount);
        entry.amount = new_total;
        proof {
            crate::rules::lemma_replaced_inv(e0.storage, depositor, deposit_id, entry);
        }
        storage::set_deposit(env, &depositor, deposit_id, &entry);
        events::top_up(env, &depositor, deposit_id, &entry.token, amount, new_total);
        proof {
            assert(env@ =~= after_top_up(e0, depositor, deposit_id, amount));
        }
        Ok(new_total)
    }

    /// Moves the unlock time of the timestamp-locked deposit
    /// `(depositor, deposit_id)` later, within the lock ceiling counted from
    /// now.
    ///
    /// Errors: `NoDepositFound`; `UnlockTimeNotInFuture` (not later than the
    /// current unlock time); `LockDurationTooLong`.
    pub fn extend_lock(env: &mut Env, depositor: Address, deposit_id: u32, new_unlock_time: u64) -> (r: Result<(), VaultError>)
        requires
            old(env).inv(),
        ensures
            final(env).inv(),
            old(env)@.storage.counters_grow(final(env)@.storage),
            match r {
                Ok(()) => extend_lock_refusal(old(env)@, depositor, deposit_id, new_unlock_time) is None
                    && final(env)@ == after_extend_lock(old(env)@, depositor, deposit_id, new_unlock_time),
                Err(err) => extend_lock_refusal(old(env)@, depositor, deposit_id, new_unlock_time) == Some(err)
                    && final(env)@ == old(env)@.auth(depositor),
            },
    {
        let ghost e0 = env@;
        env.require_auth(&depositor);
        let mut entry = match storage::get_deposit(env, &depositor, deposit_id) {
            Some(e) => e,
            None => {
                return Err(VaultError::NoDepositFound);
            },
        };
        if new_unlock_time <= entry.unlock_time {
            return Err(VaultError::UnlockTimeNotInFuture);
        }
        let now = env.timestamp();
        let max_lock = match storage::get_max_lock_secs(env) {
            Some(v) => v,
            None => MAX_LOCK_DURATION_SECS,
        };
        if new_unlock_time.saturating_sub(now) > max_lock {
            return Err(VaultError::LockDurationTooLong);
        }
        let old_unlock_time = entry.unlock_time;
        entry.unlock_time = new_unlock_time;
        proof {
            crate::rules::lemma_replaced_inv(e0.storage, depositor, deposit_id, entry);
        }
        storage::set_deposit(env, &depositor, deposit_id, &entry);
        events::lock_extended(env, &depositor, old_unlock_time, new_unlock_time);
        proof {
            assert(env@ =~= after_extend_lock(e0, depositor, deposit_id, new_unlock_time));
        }
        Ok(())
    }

    /// Admin only: moves a timestamp-locked deposit to a ledger lock at
    /// `new_unlock_ledger`, keeping its id, token, amount and penalty.
    ///
    /// Errors: `Unauthorized`; `NoDepositFound`; `UnlockTimeNotInFuture`.
    pub fn migrate_deposit_to_ledger(
        env: &mut Env,
        admin: Address,
        depositor: Address,
        deposit_id: u32,
        new_unlock_ledger: u32,
    ) -> (r: Result<(), VaultError>)
        requires
            old(env).inv(),
        ensures
            final(env).inv(),
            old(env)@.storage.counters_grow(final(env)@.storage),
            match r {
                Ok(()) => migrate_to_ledger_refusal(old(env)@, admin, depositor, deposit_id, new_unlock_ledger) is None
                    && final(env)@ == after_migrate_to_ledger(old(env)@, admin, depositor, deposit_id, new_unlock_ledger),
                Err(err) => migrate_to_ledger_refusal(old(env)@, admin, depositor, deposit_id, new_unlock_ledger)
                    == Some(err) && final(env)@ == old(env)@.auth(admin),
            },
    {
        let ghost e0 = env@;
        env.require_auth(&admin);
        storage::require_admin(env, &admin)?;
        let entry = match storage::get_deposit(env, &depositor, deposit_id) {
            Some(e) => e,
            None => {
                return Err(VaultError::NoDepositFound);
            },
        };
        let current_ledger = env.sequence();
        if new_unlock_ledger <= current_ledger {
            return Err(VaultError::UnlockTimeNotInFuture);
        }
        let ledger_entry = LedgerVaultEntry {
            token: entry.token,
            amount: entry.amount,
            unlock_ledger: new_unlock_ledger,
            depositor: entry.depositor,
            penalty_bps: entry.penalty_bps,
        };
        proof {
            crate::rules::lemma_migrated_inv(e0.storage, depositor, deposit_id, true, entry, ledger_entry);
        }
        storage::remove_deposit(env, &depositor, deposit_id);
        storage::set_deposit_by_ledger(env, &depositor, deposit_id, &ledger_entry);
        events::migrated(env, &depositor, deposit_id, true, false);
        proof {
            assert(env@ =~= after_migrate_to_ledger(e0, admin, depositor, deposit_id, new_unlock_ledger));
        }
        Ok(())
    }

    /// Admin only: moves a ledger-locked deposit to a timestamp lock at
    /// `new_unlock_time`, keeping its id, token, amount and penalty.
    ///
    /// Errors: `Unauthorized`; `NoDepositFound`; `UnlockTimeNotInFuture`.
    pub fn migrate_deposit_to_time(
        env: &mut Env,
        admin: Address,
        depositor: Address,
        deposit_id: u32,
        new_unlock_time: u64,
    ) -> (r: Result<(), VaultError>)
        requires
            old(env).inv(),
        ensures
            final(env).inv(),
            old(env)@.storage.counters_grow(final(env)@.storage),
            match r {
                Ok(()) => migrate_to_time_refusal(old(env)@, admin, depositor, deposit_id, new_unlock_time) is None
                    && final(env)@ == after_migrate_to_time(old(env)@, admin, depositor, deposit_id, new_unlock_time),
                Err(err) => migrate_to_time_refusal(old(env)@, admin, depositor, deposit_id, new_unlock_time)
                    == Some(err) && final(env)@ == old(env)@.auth(admin),
            },
    {
        let ghost e0 = env@;
        env.require_auth(&admin);
        storage::require_admin(env, &admin)?;
        let entry = match storage::get_deposit_by_ledger_readonly(env, &depositor, deposit_id) {
            Some(e) => e,
            None => {
                return Err(VaultError::NoDepositFound);
            },
        };
        let now = env.timestamp();
        if new_unlock_time <= now {
            return Err(VaultError::UnlockTimeNotInFuture);
        }
        let time_entry = VaultEntry {
            token: entry.token,
            amount: entry.amount,
            unlock_time: new_unlock_time,
            depositor: entry.depositor,
            penalty_bps: entry.penalty_bps,
        };
        proof {
            crate::rules::lemma_migrated_inv(e0.storage, depositor, deposit_id, false, time_entry, entry);
        }
        storage::remove_deposit_by_ledger(env, &depositor, deposit_id);
        storage::set_deposit(env, &depositor, deposit_id, &time_entry);
        events::migrated(env, &depositor, deposit_id, false, true);
        proof {
            assert(env@ =~= after_migrate_to_time(e0, admin, depositor, deposit_id, new_unlock_time));
        }
        Ok(())
    }

    // ----------------------------------------------------------------
    //  Administration: pausing, freezing, limits
    // ----------------------------------------------------------------
    /// Admin only: pauses new deposits (withdrawals stay open). Errors: `Unauthorized`.
    pub fn pause(env: &mut Env, admin: Address) -> (r: Result<(), VaultError>)
        requires
            old(env).inv(),
        ensures
            final(env).inv(),
            old(env)@.storage.counters_grow(final(env)@.storage),
            match r {
                Ok(()) => admin_refusal(old(env)@, admin) is None && final(env)@ == after_pause(old(env)@, admin),
                Err(err) => admin_refusal(old(env)@, admin) == Some(err) && final(env)@ == old(env)@.auth(admin),
            },
    {
        let ghost e0 = env@;
        env.require_auth(&admin);
        storage::require_admin(env, &admin)?;
        storage::set_paused(env, true);
        events::paused(env, &admin);
        proof {
            crate::rules::lemma_settings_inv(e0.storage, env@.storage);
            assert(env@ =~= after_setting(e0, admin, crate::model::VaultModel { paused: true, ..e0.storage }).emit(Event::Paused { admin }));
        }
        Ok(())
    }

    /// Admin only: resumes new deposits. Errors: `Unauthorized`.
    pub fn unpause(env: &mut Env, admin: Address) -> (r: Result<(), VaultError>)
        requires
            old(env).inv(),
        ensures
            final(env).inv(),
            old(env)@.storage.counters_grow(final(env)@.storage),
            match r {
                Ok(()) => admin_refusal(old(env)@, admin) is None && final(env)@ == after_unpause(old(env)@, admin),
                Err(err) => admin_refusal(old(env)@, admin) == Some(err) && final(env)@ == old(env)@.auth(admin),
            },
    {
        let ghost e0 = env@;
        env.require_auth(&admin);
        storage::require_admin(env, &admin)?;
        storage::set_paused(env, false);
        events::unpaused(env, &admin);
        proof {
            crate::rules::lemma_settings_inv(e0.storage, env@.storage);
            assert(env@ =~= after_setting(e0, admin, crate::model::VaultModel { paused: false, ..e0.storage }).emit(Event::Unpaused { admin }));
        }
        Ok(())
    }

    /// Admin only: pauses new deposits, without an event. Errors: `Unauthorized`.
    pub fn pause_deposits(env: &mut Env, admin: Address) -> (r: Result<(), VaultError>)
        requires
            old(env).inv(),
        ensures
            final(env).inv(),
            old(env)@.storage.counters_grow(final(env)@.storage),
            match r {
                Ok(()) => admin_refusal(old(env)@, admin) is None && final(env)@ == after_set_paused(old(env)@, admin, true),
                Err(err) => admin_refusal(old(env)@, admin) == Some(err) && final(env)@ == old(env)@.auth(admin),
            },
    {
        let ghost e0 = env@;
        env.require_auth(&admin);
        storage::require_admin(env, &admin)?;
        storage::set_paused(env, true);
        proof {
            crate::rules::lemma_settings_inv(e0.storage, env@.storage);
            assert(env@ =~= after_setting(e0, admin, crate::model::VaultModel { paused: true, ..e0.storage }));
        }
        Ok(())
    }

    /// Admin only: resumes new deposits, without an event. Errors: `Unauthorized`.
    pub fn unpause_deposits(env: &mut Env, admin: Address) -> (r: Result<(), VaultError>)
        requires
            old(env).inv(),
        ensures
            final(env).inv(),
            old(env)@.storage.counters_grow(final(env)@.storage),
            match r {
                Ok(()) => admin_refusal(old(env)@, admin) is None && final(env)@ == after_set_paused(old(env)@, admin, false),
                Err(err) => admin_refusal(old(env)@, admin) == Some(err) && final(env)@ == old(env)@.auth(admin),
            },
    {
        let ghost e0 = env@;
        env.require_auth(&admin);
        storage::require_admin(env, &admin)?;
        storage::set_paused(env, false);
        proof {
            crate::rules::lemma_settings_inv(e0.storage, env@.storage);
            assert(env@ =~= after_setting(e0, admin, crate::model::VaultModel { paused: false, ..e0.storage }));
        }
        Ok(())
    }

    /// Admin only: sets the pause flag. Errors: `Unauthorized`.
    pub fn set_paused(env: &mut Env, admin: Address, paused: bool) -> (r: Result<(), VaultError>)
        requires
            old(env).inv(),
        ensures
            final(env).inv(),
            old(env)@.storage.counters_grow(final(env)@.storage),
            match r {
                Ok(()) => admin_refusal(old(env)@, admin) is None && final(env)@ == after_set_paused(old(env)@, admin, paused),
                Err(err) => admin_refusal(old(env)@, admin) == Some(err) && final(env)@ == old(env)@.auth(admin),
            },
    {
        let ghost e0 = env@;
        env.require_auth(&admin);
        storage::require_admin(env, &admin)?;
        storage::set_paused(env, paused);
        proof {
            crate::rules::lemma_settings_inv(e0.storage, env@.storage);
            assert(env@ =~= after_setting(e0, admin, crate::model::VaultModel { paused, ..e0.storage }));
        }
        Ok(())
    }

    /// Admin only: freezes `depositor`, blocking its deposits, withdrawals and cancellations (emergency withdrawals still work). Errors: `Unauthorized`.
    pub fn freeze_depositor(env: &mut Env, admin: Address, depositor: Address) -> (r: Result<(), VaultError>)
        requires
            old(env).inv(),
        ensures
            final(env).inv(),
            old(env)@.storage.counters_grow(final(env)@.storage),
            match r {
                Ok(()) => admin_refusal(old(env)@, admin) is None && final(env)@ == after_freeze_depositor(old(env)@, admin, depositor),
                Err(err) => admin_refusal(old(env)@, admin) == Some(err) && final(env)@ == old(env)@.auth(admin),
            },
    {
        let ghost e0 = env@;
        env.require_auth(&admin);
        storage::require_admin(env, &admin)?;
        storage::set_frozen(env, &depositor);
        events::frozen(env, &admin, &depositor);
        proof {
            crate::rules::lemma_settings_inv(e0.storage, env@.storage);
            assert(env@ =~= after_setting(e0, admin, crate::model::VaultModel { frozen: e0.storage.frozen.insert(depositor), ..e0.storage }).emit(Event::Frozen { admin, depositor }));
        }
        Ok(())
    }

    /// Admin only: unfreezes `depositor`. Errors: `Unauthorized`.
    pub fn unfreeze_depositor(env: &mut Env, admin: Address, depositor: Address) -> (r: Result<(), VaultError>)
        requires
            old(env).inv(),
        ensures
            final(env).inv(),
            old(env)@.storage.counters_grow(final(env)@.storage),
            match r {
                Ok(()) => admin_refusal(old(env)@, admin) is None && final(env)@ == after_unfreeze_depositor(old(env)@, admin, depositor),
                Err(err) => admin_refusal(old(env)@, admin) == Some(err) && final(env)@ == old(env)@.auth(admin),
            },
    {
        let ghost e0 = env@;
        env.require_auth(&admin);
        storage::require_admin(env, &admin)?;
        storage::remove_frozen(env, &depositor);
        events::unfrozen(env, &admin, &depositor);
        proof {
            crate::rules::lemma_settings_inv(e0.storage, env@.storage);
            assert(env@ =~= after_setting(e0, admin, crate::model::VaultModel { frozen: e0.storage.frozen.remove(depositor), ..e0.storage }).emit(Event::Unfrozen { admin, depositor }));
        }
        Ok(())
    }

    /// Admin only: blocks new deposits of `token`. Errors: `Unauthorized`.
    pub fn freeze_token(env: &mut Env, admin: Address, token: Address) -> (r: Result<(), VaultError>)
        requires
            old(env).inv(),
        ensures
            final(env).inv(),
            old(env)@.storage.counters_grow(final(env)@.storage),
            match r {
                Ok(()) => admin_refusal(old(env)@, admin) is None && final(env)@ == after_freeze_token(old(env)@, admin, token),
                Err(err) => admin_refusal(old(env)@, admin) == Some(err) && final(env)@ == old(env)@.auth(admin),
            },
    {
        let ghost e0 = env@;
        env.require_auth(&admin);
        storage::require_admin(env, &admin)?;
        storage::set_token_frozen(env, &token);
        proof {
            crate::rules::lemma_settings_inv(e0.storage, env@.storage);
            assert(env@ =~= after_setting(e0, admin, crate::model::VaultModel { frozen_tokens: e0.storage.frozen_tokens.insert(token), ..e0.storage }));
        }
        Ok(())
    }

    /// Admin only: re-enables deposits of `token`. Errors: `Unauthorized`.
    pub fn unfreeze_token(env: &mut Env, admin: Address, token: Address) -> (r: Result<(), VaultError>)
        requires
            old(env).inv(),
        ensures
            final(env).inv(),
            old(env)@.storage.counters_grow(final(env)@.storage),
            match r {
                Ok(()) => admin_refusal(old(env)@, admin) is None && final(env)@ == after_unfreeze_token(old(env)@, admin, token),
                Err(err) => admin_refusal(old(env)@, admin) == Some(err) && final(env)@ == old(env)@.auth(admin),
            },
    {
        let ghost e0 = env@;
        env.require_auth(&admin);
        storage::require_admin(env, &admin)?;
        storage::remove_token_frozen(env, &token);
        proof {
            crate::rules::lemma_settings_inv(e0.storage, env@.storage);
            assert(env@ =~= after_setting(e0, admin, crate::model::VaultModel { frozen_tokens: e0.storage.frozen_tokens.remove(token), ..e0.storage }));
        }
        Ok(())
    }

    /// Admin only: caps the penalty of new deposits at `bps` basis points (10000 removes the cap). Errors: `Unauthorized`; `InvalidPenaltyBps` above 10000.
    pub fn set_max_penalty_bps(env: &mut Env, admin: Address, bps: u32) -> (r: Result<(), VaultError>)
        requires
            old(env).inv(),
        ensures
            final(env).inv(),
            old(env)@.storage.counters_grow(final(env)@.storage),
            match r {
                Ok(()) => penalty_cap_refusal(old(env)@, admin, bps) is None && final(env)@ == after_set_max_penalty_bps(old(env)@, admin, bps),
                Err(err) => penalty_cap_refusal(old(env)@, admin, bps) == Some(err) && final(env)@ == old(env)@.auth(admin),
            },
    {
        let ghost e0 = env@;
        env.require_auth(&admin);
        storage::require_admin(env, &admin)?;
        if bps > 10_000 {
            return Err(VaultError::InvalidPenaltyBps);
        }
        storage::set_max_penalty_bps(env, bps);
        proof {
            crate::rules::lemma_settings_inv(e0.storage, env@.storage);
            assert(env@ =~= after_setting(e0, admin, crate::model::VaultModel { max_penalty_bps: Some(bps), ..e0.storage }));
        }
        Ok(())
    }

    /// Admin only: sets the minimum cancellation fee in token units; the penalty is the larger of the rate and this fee, capped at the amount. Errors: `Unauthorized`; `InvalidAmount` for a negative fee.
    pub fn set_min_cancel_fee(env: &mut Env, admin: Address, fee: i128) -> (r: Result<(), VaultError>)
        requires
            old(env).inv(),
        ensures
            final(env).inv(),
            old(env)@.storage.counters_grow(final(env)@.storage),
            match r {
                Ok(()) => min_fee_refusal(old(env)@, admin, fee) is None && final(env)@ == after_set_min_cancel_fee(old(env)@, admin, fee),
                Err(err) => min_fee_refusal(old(env)@, admin, fee) == Some(err) && final(env)@ == old(env)@.auth(admin),
            },
    {
        let ghost e0 = env@;
        env.require_auth(&admin);
        storage::require_admin(env, &admin)?;
        if fee < 0 {
            return Err(VaultError::InvalidAmount);
        }
        storage::set_min_cancel_fee(env, fee);
        proof {
            crate::rules::lemma_settings_inv(e0.storage, env@.storage);
            assert(env@ =~= after_setting(e0, admin, crate::model::VaultModel { min_cancel_fee: Some(fee), ..e0.storage }));
        }
        Ok(())
    }

    // ----------------------------------------------------------------
    //  Administration: two-step admin transfer and renouncement
    // ----------------------------------------------------------------
    /// Step 1 of an admin transfer: the admin nominates `new_admin`.
    ///
    /// Errors: `Unauthorized` (caller is not the admin); `InvalidAdmin`
    /// (`new_admin` is already the admin).
    pub fn transfer_admin(env: &mut Env, admin: Address, new_admin: Address) -> (r: Result<(), VaultError>)
        requires
            old(env).inv(),
        ensures
            final(env).inv(),
            old(env)@.storage.counters_grow(final(env)@.storage),
            match r {
                Ok(()) => nomination_refusal(old(env)@, admin, new_admin) is None
                    && final(env)@ == after_nomination(old(env)@, admin, new_admin),
                Err(err) => nomination_refusal(old(env)@, admin, new_admin) == Some(err)
                    && final(env)@ == old(env)@.auth(admin),
            },
    {
        let ghost e0 = env@;
        env.require_auth(&admin);
        let stored_admin = match storage::get_admin(env) {
            Some(a) => a,
            None => {
                return Err(VaultError::Unauthorized);
            },
        };
        if admin != stored_admin {
            return Err(VaultError::Unauthorized);
        }
        if new_admin == stored_admin {
            return Err(VaultError::InvalidAdmin);
        }
        storage::set_pending_admin(env, &new_admin);
        events::admin_transfer_initiated(env, &admin, &new_admin);
        proof {
            crate::rules::lemma_settings_inv(e0.storage, env@.storage);
        }
        Ok(())
    }

    /// Step 2 of an admin transfer: the nominee accepts and becomes the admin.
    ///
    /// Errors: `Unauthorized` (caller is not the pending admin).
    pub fn accept_admin(env: &mut Env, new_admin: Address) -> (r: Result<(), VaultError>)
        requires
            old(env).inv(),
        ensures
            final(env).inv(),
            old(env)@.storage.counters_grow(final(env)@.storage),
            match r {
                Ok(()) => acceptance_refusal(old(env)@, new_admin) is None
                    && final(env)@ == after_acceptance(old(env)@, new_admin),
                Err(err) => acceptance_refusal(old(env)@, new_admin) == Some(err)
                    && final(env)@ == old(env)@.auth(new_admin),
            },
    {
        let ghost e0 = env@;
        env.require_auth(&new_admin);
        let pending_admin = match storage::get_pending_admin(env) {
            Some(a) => a,
            None => {
                return Err(VaultError::Unauthorized);
            },
        };
        if new_admin != pending_admin {
            return Err(VaultError::Unauthorized);
        }
        storage::set_admin(env, &new_admin);
        storage::remove_pending_admin(env);
        events::admin_transfer_accepted(env, &new_admin);
        proof {
            crate::rules::lemma_settings_inv(e0.storage, env@.storage);
        }
        Ok(())
    }

    /// The admin withdraws a pending nomination (a no-op when there is none).
    ///
    /// Errors: `Unauthorized` (caller is not the admin).
    pub fn cancel_transfer_admin(env: &mut Env, admin: Address) -> (r: Result<(), VaultError>)
        requires
            old(env).inv(),
        ensures
            final(env).inv(),
            old(env)@.storage.counters_grow(final(env)@.storage),
            match r {
                Ok(()) => admin_refusal(old(env)@, admin) is None
                    && final(env)@ == after_cancel_nomination(old(env)@, admin),
                Err(err) => admin_refusal(old(env)@, admin) == Some(err) && final(env)@ == old(env)@.auth(admin),
            },
    {
        let ghost e0 = env@;
        env.require_auth(&admin);
        let stored_admin = match storage::get_admin(env) {
            Some(a) => a,
            None => {
                return Err(VaultError::Unauthorized);
            },
        };
        if admin != stored_admin {
            return Err(VaultError::Unauthorized);
        }
        if let Some(pending) = storage::get_pending_admin(env) {
            storage::remove_pending_admin(env);
            events::admin_transfer_cancelled(env, &admin, &pending);
        }
        proof {
            crate::rules::lemma_settings_inv(e0.storage, env@.storage);
        }
        Ok(())
    }

    /// The admin permanently gives up admin rights: the vault becomes fully
    /// trustless (no emergency withdrawals, pausing or freezing any more).
    ///
    /// Errors: `Unauthorized` (caller is not the admin).
    pub fn renounce_admin(env: &mut Env, admin: Address) -> (r: Result<(), VaultError>)
        requires
            old(env).inv(),
        ensures
            final(env).inv(),
            old(env)@.storage.counters_grow(final(env)@.storage),
            match r {
                Ok(()) => admin_refusal(old(env)@, admin) is None
                    && final(env)@ == after_renounce(old(env)@, admin),
                Err(err) => admin_refusal(old(env)@, admin) == Some(err) && final(env)@ == old(env)@.auth(admin),
            },
    {
        let ghost e0 = env@;
        env.require_auth(&admin);
        let stored_admin = match storage::get_admin(env) {
            Some(a) => a,
            None => {
                return Err(VaultError::Unauthorized);
            },
        };
        if admin != stored_admin {
            return Err(VaultError::Unauthorized);
        }
        storage::remove_admin(env);
        storage::remove_pending_admin(env);
        events::admin_renounced(env, &admin);
        proof {
            crate::rules::lemma_settings_inv(e0.storage, env@.storage);
        }
        Ok(())
    }

    // ----------------------------------------------------------------
    //  Queries
    // ----------------------------------------------------------------
    /// Whether new deposits are paused.
    pub fn is_paused(env: &Env) -> (r: bool)
        ensures
            r == env@.storage.paused,
    {
        storage::is_paused(env)
    }

    /// Whether `depositor` is frozen.
    pub fn is_depositor_frozen(env: &Env, depositor: Address) -> (r: bool)
        ensures
            r == env@.storage.frozen.contains(depositor),
    {
        storage::is_frozen(env, &depositor)
    }

    /// Whether new deposits of `token` are blocked.
    pub fn is_token_frozen(env: &Env, token: Address) -> (r: bool)
        ensures
            r == env@.storage.frozen_tokens.contains(token),
    {
        storage::is_token_frozen(env, &token)
    }

    /// The configured penalty cap, or `None` when unset (the cap is then 10000).
    pub fn get_max_penalty_bps(env: &Env) -> (r: Option<u32>)
        ensures
            r == env@.storage.max_penalty_bps,
    {
        storage::get_max_penalty_bps(env)
    }

    /// The configured minimum cancellation fee, or `None` when unset (0).
    pub fn get_min_cancel_fee(env: &Env) -> (r: Option<i128>)
        ensures
            r == env@.storage.min_cancel_fee,
    {
        storage::get_min_cancel_fee(env)
    }

    /// The timestamp-locked deposit `(depositor, deposit_id)`, if active.
    pub fn get_vault(env: &Env, depositor: Address, deposit_id: u32) -> (r: Option<VaultEntry>)
        requires
            env.inv(),
        ensures
            r == env@.storage.deposit_of(depositor, deposit_id),
    {
        storage::get_deposit(env, &depositor, deposit_id)
    }

    /// The ledger-locked deposit `(depositor, deposit_id)`, if active.
    pub fn get_vault_by_ledger(env: &Env, depositor: Address, deposit_id: u32) -> (r: Option<LedgerVaultEntry>)
        requires
            env.inv(),
        ensures
            r == env@.storage.ledger_deposit_of(depositor, deposit_id),
    {
        storage::get_deposit_by_ledger_readonly(env, &depositor, deposit_id)
    }

    /// Ledgers until the ledger-locked deposit `(depositor, deposit_id)`
    /// unlocks; 0 once unlocked or when there is no such deposit.
    pub fn ledgers_remaining(env: &Env, depositor: Address, deposit_id: u32) -> (r: u32)
        requires
            env.inv(),
        ensures
            r == match env@.storage.ledger_deposit_of(depositor, deposit_id) {
                None => 0,
                Some(entry) => saturating_diff(entry.unlock_ledger as int, env@.seq() as int),
            },
    {
        match storage::get_deposit_by_ledger_readonly(env, &depositor, deposit_id) {
            None => 0,
            Some(entry) => entry.unlock_ledger.saturating_sub(env.sequence()),
        }
    }

    /// For each of the first `MAX_BATCH_SIZE` of `depositors` (all of them
    /// when there are fewer), its timestamp-locked deposit `deposit_id`, if
    /// active; the rest of the list is ignored.
    pub fn get_vault_batch(env: &Env, depositors: Vec<Address>, deposit_id: u32) -> (r: Vec<Option<VaultEntry>>)
        requires
            env.inv(),
        ensures
            r@.len() == (if depositors@.len() <= MAX_BATCH_SIZE { depositors@.len() } else { MAX_BATCH_SIZE as nat }),
            forall|i: int| 0 <= i < r@.len() ==> #[trigger] r@[i] == env@.storage.deposit_of(depositors@[i], deposit_id),
    {
        let n: usize = if depositors.len() <= MAX_BATCH_SIZE as usize {
            depositors.len()
        } else {
            MAX_BATCH_SIZE as usize
        };
        let mut results: Vec<Option<VaultEntry>> = Vec::new();
        let mut i: usize = 0;
        while i < n
            invariant
                i <= n,
                n <= depositors@.len(),
                env.inv(),
                results@.len() == i,
                forall|k: int| 0 <= k < i ==> #[trigger] results@[k] == env@.storage.deposit_of(depositors@[k], deposit_id),
            decreases n - i,
        {
            results.push(storage::get_deposit_readonly(env, &depositors[i], deposit_id));
            i = i + 1;
        }
        results
    }

    /// The active timestamp-locked deposit ids of `depositor`, ascending.
    pub fn get_deposit_ids(env: &Env, depositor: Address) -> (r: Vec<u32>)
        requires
            env.inv(),
        ensures
            r@ == env@.storage.time_ids(depositor),
    {
        storage::get_deposit_ids(env, &depositor)
    }

    /// The close time of the current ledger.
    pub fn get_time(env: &Env) -> (r: u64)
        ensures
            r == env@.now(),
    {
        env.timestamp()
    }

    /// Seconds until deposit `(depositor, deposit_id)` unlocks (timestamp
    /// lock first; a ledger lock counts `LEDGER_SECONDS` per ledger); 0 once
    /// unlocked or when there is no such deposit.
    pub fn time_remaining(env: &Env, depositor: Address, deposit_id: u32) -> (r: u64)
        requires
            env.inv(),
        ensures
            r == time_remaining_of(env@, depositor, deposit_id),
    {
        if let Some(entry) = storage::get_deposit_readonly(env, &depositor, deposit_id) {
            return entry.unlock_time.saturating_sub(env.timestamp());
        }
        if let Some(entry) = storage::get_deposit_by_ledger_readonly(env, &depositor, deposit_id) {
            let remaining_ledgers = entry.unlock_ledger.saturating_sub(env.sequence());
            return (remaining_ledgers as u64) * LEDGER_SECONDS;
        }
        0
    }

    /// The admin, or `None` once renounced.
    pub fn get_admin(env: &Env) -> (r: Option<Address>)
        ensures
            r == env@.storage.admin,
    {
        storage::get_admin(env)
    }

    /// The nominee of a pending admin transfer, if any.
    pub fn get_pending_admin(env: &Env) -> (r: Option<Address>)
        ensures
            r == env@.storage.pending_admin,
    {
        storage::get_pending_admin(env)
    }

    /// The effective deposit cap and lock ceiling: the configured values, or
    /// the protocol defaults.
    pub fn get_constants(env: &Env) -> (r: (i128, u64))
        ensures
            r == (env@.storage.effective_max_deposit(), env@.storage.effective_max_lock_secs()),
    {
        let max_deposit = match storage::get_max_deposit(env) {
            Some(v) => v,
            None => MAX_DEPOSIT_AMOUNT,
        };
        let max_lock = match storage::get_max_lock_secs(env) {
            Some(v) => v,
            None => MAX_LOCK_DURATION_SECS,
        };
        (max_deposit, max_lock)
    }

    /// The receiver of cancellation penalties, if set.
    pub fn get_fee_recipient(env: &Env) -> (r: Option<Address>)
        ensures
            r == env@.storage.fee_recipient,
    {
        storage::get_fee_recipient(env)
    }

    /// Whether the vault has been initialized.
    pub fn is_initialized(env: &Env) -> (r: bool)
        ensures
            r == env@.storage.initialized,
    {
        storage::is_initialized(env)
    }

    /// The number of addresses holding at least one active deposit.
    pub fn get_depositor_count(env: &Env) -> (r: u32)
        requires
            env.inv(),
        ensures
            r == env@.storage.depositors.len(),
    {
        storage::get_depositor_count(env)
    }

    /// A page of the depositor index: from slot `offset`, at most `limit`
    /// addresses and never more than `MAX_DEPOSITORS_PAGE_SIZE`.
    pub fn get_depositors(env: &Env, offset: u32, limit: u32) -> (r: Vec<Address>)
        requires
            env.inv(),
        ensures
            r@ == env@.storage.depositors_page(
                offset,
                if limit <= MAX_DEPOSITORS_PAGE_SIZE { limit } else { MAX_DEPOSITORS_PAGE_SIZE },
            ),
    {
        let capped = if limit <= MAX_DEPOSITORS_PAGE_SIZE { limit } else { MAX_DEPOSITORS_PAGE_SIZE };
        storage::get_depositors_page(env, offset, capped)
    }

    /// Every active deposit, of either kind, of the depositors in slots
    /// `offset ..` (at most `limit` of them), each depositor's in ascending
    /// id order. A ledger lock is listed as a timestamp lock at
    /// `unlock_ledger * LEDGER_SECONDS`.
    pub fn get_all_vaults(env: &Env, offset: u32, limit: u32) -> (r: Vec<VaultInfo>)
        requires
            env.inv(),
        ensures
            r@ == all_vaults(env@.storage, env@.storage.depositors_page(offset, limit)),
    {
        let depositors = storage::get_depositors_page(env, offset, limit);
        let ghost m = env@.storage;
        let mut vaults: Vec<VaultInfo> = Vec::new();
        let n = depositors.len();
        let mut i: usize = 0;
        while i < n
            invariant
                env.inv(),
                m == env@.storage,
                i <= n,
                n == depositors@.len(),
                vaults@ == all_vaults(m, depositors@.subrange(0, i as int)),
            decreases n - i,
        {
            let depositor = depositors[i];
            let ids = storage::get_all_deposit_ids(env, &depositor);
            let ghost before = vaults@;
            let k = ids.len();
            let mut j: usize = 0;
            while j < k
                invariant
                    env.inv(),
                    m == env@.storage,
                    j <= k,
                    k == ids@.len(),
                    vaults@ == before + vault_infos(m, depositor, ids@.subrange(0, j as int)),
                decreases k - j,
            {
                let deposit_id = ids[j];
                let ghost mid = vaults@;
                if let Some(entry) = storage::get_deposit_readonly(env, &depositor, deposit_id) {
                    vaults.push(VaultInfo { depositor, deposit_id, entry });
                } else if let Some(l) = storage::get_deposit_by_ledger_readonly(env, &depositor, deposit_id) {
                    let time_entry = VaultEntry {
                        token: l.token,
                        amount: l.amount,
                        unlock_time: (l.unlock_ledger as u64) * LEDGER_SECONDS,
                        depositor: l.depositor,
                        penalty_bps: l.penalty_bps,
                    };
                    vaults.push(VaultInfo { depositor, deposit_id, entry: time_entry });
                }
                proof {
                    assert(ids@.subrange(0, j + 1).drop_last() =~= ids@.subrange(0, j as int));
                    assert(vaults@ =~= mid + vault_info(m, depositor, deposit_id));
                    assert(vaults@ =~= before + vault_infos(m, depositor, ids@.subrange(0, j + 1)));
                }
                j = j + 1;
            }
            proof {
                assert(ids@.subrange(0, k as int) =~= ids@);
                assert(depositors@.subrange(0, i + 1).drop_last() =~= depositors@.subrange(0, i as int));
            }
            i = i + 1;
        }
        proof {
            assert(depositors@.subrange(0, n as int) =~= depositors@);
        }
        vaults
    }

    /// A summary of the vault's state: admin, pause flag and depositor count.
    pub fn vault_status(env: &Env) -> (r: VaultStatus)
        requires
            env.inv(),
        ensures
            r == (VaultStatus {
                has_admin: env@.storage.admin is Some,
                admin: env@.storage.admin,
                paused: env@.storage.paused,
                depositor_count: env@.storage.depositors.len() as u32,
            }),
    {
        let admin = storage::get_admin(env);
        VaultStatus {
            has_admin: admin.is_some(),
            admin,
            paused: storage::is_paused(env),
            depositor_count: storage::get_depositor_count(env),
        }
    }
}

} // verus!
