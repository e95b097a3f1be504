use time_lock_vault::storage;
use time_lock_vault::{
    Address, Env, Event, Step, TimeLockVault, Transfer, VaultError, LEDGER_SECONDS, MAX_BATCH_SIZE,
    MAX_DEPOSITORS_PAGE_SIZE, MIN_LOCK_DURATION_SECS,
};

const START: u64 = 1_000_000;
const START_SEQ: u32 = 500;

fn vault() -> Address {
    Address::new(1)
}
fn admin() -> Address {
    Address::new(2)
}
fn alice() -> Address {
    Address::new(3)
}
fn fee() -> Address {
    Address::new(4)
}
fn token() -> Address {
    Address::new(5)
}
fn bob() -> Address {
    Address::new(10)
}

fn fresh(max_deposit: Option<i128>, max_lock_secs: Option<u64>) -> Env {
    let mut env = Env::new(vault(), START, START_SEQ);
    TimeLockVault::initialize(&mut env, admin(), fee(), max_deposit, max_lock_secs).unwrap();
    env
}

fn ready() -> Env {
    fresh(None, None)
}

fn lock(env: &mut Env, who: Address, amount: i128, secs: u64, bps: u32) -> u32 {
    let unlock = env.ledger.timestamp + secs;
    TimeLockVault::deposit(env, who, token(), amount, unlock, bps).unwrap()
}

// ----------------------------------------------------------------
//  Error codes
// ----------------------------------------------------------------

#[test]
fn error_codes_round_trip() {
    for code in 1..=17u32 {
        let err = VaultError::from_code(code).unwrap();
        assert_eq!(err.code(), code);
    }
    assert_eq!(VaultError::from_code(0), None);
    assert_eq!(VaultError::from_code(18), None);
    assert_eq!(VaultError::InvalidAmount.code(), 1);
    assert_eq!(VaultError::TokenFrozen.code(), 17);
    assert_eq!(VaultError::from_code(14), Some(VaultError::BatchTooLarge));
}

// ----------------------------------------------------------------
//  Initialization
// ----------------------------------------------------------------

#[test]
fn initialize_rejects_non_positive_max_deposit() {
    let mut env = Env::new(vault(), START, START_SEQ);
    let r = TimeLockVault::initialize(&mut env, admin(), fee(), Some(0), None);
    assert_eq!(r, Err(VaultError::InvalidAmount));
    assert!(!TimeLockVault::is_initialized(&env));
    // the admin's authorization is asked for before anything is checked
    assert_eq!(env.auths, vec![admin()]);
}

#[test]
fn initialize_rejects_zero_max_lock() {
    let mut env = Env::new(vault(), START, START_SEQ);
    let r = TimeLockVault::initialize(&mut env, admin(), fee(), None, Some(0));
    assert_eq!(r, Err(VaultError::LockDurationTooLong));
}

#[test]
fn initialize_records_admin_authorization() {
    let env = ready();
    assert_eq!(env.auths, vec![admin()]);
    assert!(TimeLockVault::is_initialized(&env));
    assert_eq!(TimeLockVault::get_constants(&env), (1_000_000_000_000_000, 157_788_000));
}

#[test]
fn initialize_refused_after_renounce() {
    let mut env = ready();
    TimeLockVault::renounce_admin(&mut env, admin()).unwrap();
    let r = TimeLockVault::initialize(&mut env, bob(), bob(), None, None);
    assert_eq!(r, Err(VaultError::Unauthorized));
    assert_eq!(TimeLockVault::get_admin(&env), None);
}

// ----------------------------------------------------------------
//  Deposits: records kept, refusals
// ----------------------------------------------------------------

#[test]
fn deposit_records_auth_transfer_and_event() {
    let mut env = ready();
    let id = lock(&mut env, alice(), 1_000, 3_600, 250);
    assert_eq!(id, 0);
    assert_eq!(env.auths, vec![admin(), alice()]);
    assert_eq!(
        env.transfers,
        vec![Transfer { token: token(), from: alice(), to: vault(), amount: 1_000 }]
    );
    assert_eq!(
        env.events.last(),
        Some(&Event::Deposit {
            depositor: alice(),
            token: token(),
            deposit_id: 0,
            amount: 1_000,
            unlock_at: START + 3_600
        })
    );
    let entry = TimeLockVault::get_vault(&env, alice(), 0).unwrap();
    assert_eq!(entry.amount, 1_000);
    assert_eq!(entry.unlock_time, START + 3_600);
    assert_eq!(entry.penalty_bps, 250);
    assert_eq!(entry.depositor, alice());
}

#[test]
fn refused_deposit_leaves_env_unchanged() {
    let mut env = ready();
    let r = TimeLockVault::deposit(&mut env, alice(), token(), 0, START + 3_600, 0);
    assert_eq!(r, Err(VaultError::InvalidAmount));
    // only the depositor's authorization request is recorded
    assert_eq!(env.auths, vec![admin(), alice()]);
    assert!(env.transfers.is_empty());
    assert!(env.events.is_empty());
    assert_eq!(TimeLockVault::get_depositor_count(&env), 0);
}

#[test]
fn deposit_token_frozen_fails() {
    let mut env = ready();
    TimeLockVault::freeze_token(&mut env, admin(), token()).unwrap();
    assert!(TimeLockVault::is_token_frozen(&env, token()));
    let r = TimeLockVault::deposit(&mut env, alice(), token(), 100, START + 3_600, 0);
    assert_eq!(r, Err(VaultError::TokenFrozen));
    TimeLockVault::unfreeze_token(&mut env, admin(), token()).unwrap();
    assert!(!TimeLockVault::is_token_frozen(&env, token()));
    assert_eq!(lock(&mut env, alice(), 100, 3_600, 0), 0);
}

#[test]
fn token_freeze_spares_existing_deposits() {
    let mut env = ready();
    let id = lock(&mut env, alice(), 700, 120, 0);
    TimeLockVault::freeze_token(&mut env, admin(), token()).unwrap();
    env.ledger.timestamp += 120;
    assert_eq!(TimeLockVault::withdraw(&mut env, alice(), id), Ok(()));
    assert_eq!(env.transfers.last().unwrap().amount, 700);
}

#[test]
fn deposit_checks_come_in_order() {
    let mut env = ready();
    TimeLockVault::pause(&mut env, admin()).unwrap();
    TimeLockVault::freeze_depositor(&mut env, admin(), alice()).unwrap();
    // paused is reported before the freeze and before the bad amount
    let r = TimeLockVault::deposit(&mut env, alice(), token(), -5, 0, 20_000);
    assert_eq!(r, Err(VaultError::ContractPaused));
    TimeLockVault::unpause(&mut env, admin()).unwrap();
    let r = TimeLockVault::deposit(&mut env, alice(), token(), -5, 0, 20_000);
    assert_eq!(r, Err(VaultError::DepositorFrozen));
}

#[test]
fn deposit_for_ignores_beneficiary_freeze() {
    let mut env = ready();
    TimeLockVault::freeze_depositor(&mut env, admin(), alice()).unwrap();
    let id = TimeLockVault::deposit_for(&mut env, bob(), alice(), token(), 300, START + 600, 0).unwrap();
    assert_eq!(id, 0);
    assert_eq!(
        env.transfers,
        vec![Transfer { token: token(), from: bob(), to: vault(), amount: 300 }]
    );
    assert_eq!(TimeLockVault::get_vault(&env, alice(), 0).unwrap().depositor, alice());
}

#[test]
fn deposit_at_minimum_lock_succeeds_and_one_below_fails() {
    let mut env = ready();
    let r = TimeLockVault::deposit(&mut env, alice(), token(), 10, START + MIN_LOCK_DURATION_SECS - 1, 0);
    assert_eq!(r, Err(VaultError::LockDurationTooShort));
    let r = TimeLockVault::deposit(&mut env, alice(), token(), 10, START + MIN_LOCK_DURATION_SECS, 0);
    assert_eq!(r, Ok(0));
}

#[test]
fn room_for_deposit_on_fresh_vault() {
    let env = ready();
    assert!(storage::room_for_deposit(&env, &alice()));
}

// ----------------------------------------------------------------
//  Ledger-locked deposits
// ----------------------------------------------------------------

#[test]
fn ledger_deposit_limits_in_ledgers() {
    let mut env = ready();
    let min_ledgers = (MIN_LOCK_DURATION_SECS / LEDGER_SECONDS) as u32;
    let r = TimeLockVault::deposit_by_ledger(&mut env, alice(), token(), 10, START_SEQ + min_ledgers - 1, 0);
    assert_eq!(r, Err(VaultError::LockDurationTooShort));
    let max_ledgers = (157_788_000 / LEDGER_SECONDS) as u32;
    let r = TimeLockVault::deposit_by_ledger(&mut env, alice(), token(), 10, START_SEQ + max_ledgers + 1, 0);
    assert_eq!(r, Err(VaultError::LockDurationTooLong));
    let r = TimeLockVault::deposit_by_ledger(&mut env, alice(), token(), 10, START_SEQ + min_ledgers, 0);
    assert_eq!(r, Ok(0));
}

#[test]
fn ledger_deposit_remaining_ledgers_and_seconds() {
    let mut env = ready();
    let id = TimeLockVault::deposit_by_ledger(&mut env, alice(), token(), 50, START_SEQ + 40, 0).unwrap();
    assert_eq!(TimeLockVault::ledgers_remaining(&env, alice(), id), 40);
    assert_eq!(TimeLockVault::time_remaining(&env, alice(), id), 200);
    env.ledger.sequence += 15;
    assert_eq!(TimeLockVault::ledgers_remaining(&env, alice(), id), 25);
    assert_eq!(TimeLockVault::time_remaining(&env, alice(), id), 125);
    env.ledger.sequence += 100;
    assert_eq!(TimeLockVault::ledgers_remaining(&env, alice(), id), 0);
    assert_eq!(TimeLockVault::time_remaining(&env, alice(), id), 0);
    assert_eq!(TimeLockVault::ledgers_remaining(&env, alice(), 9), 0);
}

#[test]
fn ledger_deposit_withdraw_waits_for_sequence() {
    let mut env = ready();
    let id = TimeLockVault::deposit_by_ledger(&mut env, alice(), token(), 50, START_SEQ + 20, 0).unwrap();
    env.ledger.timestamp += 1_000_000;
    assert_eq!(TimeLockVault::withdraw(&mut env, alice(), id), Err(VaultError::FundsStillLocked));
    env.ledger.sequence += 20;
    assert_eq!(TimeLockVault::withdraw(&mut env, alice(), id), Ok(()));
    assert_eq!(TimeLockVault::get_vault_by_ledger(&env, alice(), id), None);
}

#[test]
fn storage_id_listings_cover_both_lock_kinds() {
    let mut env = ready();
    lock(&mut env, alice(), 10, 3_600, 0);
    TimeLockVault::deposit_by_ledger(&mut env, alice(), token(), 10, START_SEQ + 100, 0).unwrap();
    lock(&mut env, alice(), 10, 3_600, 0);
    assert_eq!(storage::get_deposit_ids(&env, &alice()), vec![0, 2]);
    assert_eq!(storage::get_deposit_by_ledger_ids(&env, &alice()), vec![1]);
    assert_eq!(storage::get_all_deposit_ids(&env, &alice()), vec![0, 1, 2]);
    assert_eq!(storage::get_all_deposit_ids_limited(&env, &alice(), 2), vec![0, 1]);
    assert_eq!(storage::get_deposit_by_ledger_ids_limited(&env, &alice(), 0), Vec::<u32>::new());
    assert!(storage::has_any_deposit(&env, &alice()));
    assert!(!storage::has_any_deposit(&env, &bob()));
}

// ----------------------------------------------------------------
//  Withdrawals
// ----------------------------------------------------------------

#[test]
fn no_double_withdraw() {
    let mut env = ready();
    let id = lock(&mut env, alice(), 900, 60, 0);
    env.ledger.timestamp += 60;
    assert_eq!(TimeLockVault::withdraw(&mut env, alice(), id), Ok(()));
    assert_eq!(TimeLockVault::withdraw(&mut env, alice(), id), Err(VaultError::NoDepositFound));
    assert_eq!(
        TimeLockVault::emergency_withdraw(&mut env, admin(), alice(), id),
        Err(VaultError::NoDepositFound)
    );
    let paid: i128 = env.transfers.iter().filter(|t| t.from == vault()).map(|t| t.amount).sum();
    assert_eq!(paid, 900);
}

#[test]
fn withdraw_to_pays_recipient_and_emits() {
    let mut env = ready();
    let id = lock(&mut env, alice(), 400, 60, 0);
    env.ledger.timestamp += 61;
    TimeLockVault::withdraw_to(&mut env, alice(), id, bob()).unwrap();
    assert_eq!(
        env.transfers.last(),
        Some(&Transfer { token: token(), from: vault(), to: bob(), amount: 400 })
    );
    assert_eq!(
        env.events.last(),
        Some(&Event::WithdrawTo {
            depositor: alice(),
            recipient: bob(),
            token: token(),
            deposit_id: id,
            amount: 400
        })
    );
}

#[test]
fn emergency_withdraw_pays_depositor_not_admin() {
    let mut env = ready();
    let id = lock(&mut env, alice(), 1_234, 86_400, 0);
    TimeLockVault::emergency_withdraw(&mut env, admin(), alice(), id).unwrap();
    assert_eq!(
        env.transfers.last(),
        Some(&Transfer { token: token(), from: vault(), to: alice(), amount: 1_234 })
    );
    assert_eq!(TimeLockVault::get_depositor_count(&env), 0);
}

// ----------------------------------------------------------------
//  Cancellation
// ----------------------------------------------------------------

#[test]
fn cancel_penalty_goes_to_fee_recipient() {
    let mut env = ready();
    let id = lock(&mut env, alice(), 1_000, 3_600, 1_000);
    TimeLockVault::cancel_deposit(&mut env, alice(), id).unwrap();
    assert_eq!(
        env.transfers[1..].to_vec(),
        vec![
            Transfer { token: token(), from: vault(), to: fee(), amount: 100 },
            Transfer { token: token(), from: vault(), to: alice(), amount: 900 },
        ]
    );
    assert_eq!(
        env.events.last(),
        Some(&Event::DepositCancelled { depositor: alice(), token: token(), amount: 1_000, penalty: 100 })
    );
}

#[test]
fn cancel_min_fee_raises_small_penalty() {
    let mut env = ready();
    TimeLockVault::set_min_cancel_fee(&mut env, admin(), 300).unwrap();
    assert_eq!(TimeLockVault::get_min_cancel_fee(&env), Some(300));
    let id = lock(&mut env, alice(), 1_000, 3_600, 1_000);
    TimeLockVault::cancel_deposit(&mut env, alice(), id).unwrap();
    assert_eq!(env.transfers[1].amount, 300);
    assert_eq!(env.transfers[2].amount, 700);
}

#[test]
fn cancel_min_fee_capped_at_amount() {
    let mut env = ready();
    TimeLockVault::set_min_cancel_fee(&mut env, admin(), 5_000).unwrap();
    let id = lock(&mut env, alice(), 1_000, 3_600, 0);
    TimeLockVault::cancel_deposit(&mut env, alice(), id).unwrap();
    // the whole amount is the penalty; no refund transfer is made
    assert_eq!(env.transfers.len(), 2);
    assert_eq!(
        env.transfers[1],
        Transfer { token: token(), from: vault(), to: fee(), amount: 1_000 }
    );
}

#[test]
fn cancel_rounds_penalty_down() {
    let mut env = ready();
    let id = lock(&mut env, alice(), 999, 3_600, 1);
    TimeLockVault::cancel_deposit(&mut env, alice(), id).unwrap();
    // 999 * 1 / 10_000 rounds to 0: everything is refunded
    assert_eq!(env.transfers.len(), 2);
    assert_eq!(env.transfers[1], Transfer { token: token(), from: vault(), to: alice(), amount: 999 });
}

#[test]
fn cancel_conserves_amount() {
    let mut env = ready();
    let id = lock(&mut env, alice(), 12_345, 3_600, 3_333);
    TimeLockVault::cancel_deposit(&mut env, alice(), id).unwrap();
    let out: i128 = env.transfers[1..].iter().map(|t| t.amount).sum();
    assert_eq!(out, 12_345);
}

#[test]
fn cancel_ledger_deposit_after_unlock_fails() {
    let mut env = ready();
    let id = TimeLockVault::deposit_by_ledger(&mut env, alice(), token(), 50, START_SEQ + 20, 0).unwrap();
    env.ledger.sequence += 20;
    assert_eq!(TimeLockVault::cancel_deposit(&mut env, alice(), id), Err(VaultError::FundsAlreadyUnlocked));
}

#[test]
fn set_min_cancel_fee_rejects_negative() {
    let mut env = ready();
    assert_eq!(TimeLockVault::set_min_cancel_fee(&mut env, admin(), -1), Err(VaultError::InvalidAmount));
    assert_eq!(TimeLockVault::set_min_cancel_fee(&mut env, bob(), 1), Err(VaultError::Unauthorized));
}

#[test]
fn max_penalty_cap_is_enforced() {
    let mut env = ready();
    assert_eq!(
        TimeLockVault::set_max_penalty_bps(&mut env, admin(), 10_001),
        Err(VaultError::InvalidPenaltyBps)
    );
    TimeLockVault::set_max_penalty_bps(&mut env, admin(), 500).unwrap();
    assert_eq!(TimeLockVault::get_max_penalty_bps(&env), Some(500));
    let r = TimeLockVault::deposit(&mut env, alice(), token(), 10, START + 3_600, 501);
    assert_eq!(r, Err(VaultError::InvalidPenaltyBps));
    let r = TimeLockVault::deposit(&mut env, alice(), token(), 10, START + 3_600, 500);
    assert_eq!(r, Ok(0));
}

// ----------------------------------------------------------------
//  Batches
// ----------------------------------------------------------------

#[test]
fn batch_withdraw_reports_each_item() {
    let mut env = ready();
    let early = lock(&mut env, alice(), 100, 60, 0);
    let late = lock(&mut env, alice(), 200, 7_200, 0);
    env.ledger.timestamp += 60;
    let results = TimeLockVault::batch_withdraw(&mut env, alice(), vec![early, late, 7]).unwrap();
    assert_eq!(results.len(), 3);
    assert!(results[0].success);
    assert_eq!(results[0].amount, 100);
    assert_eq!(results[0].token, token());
    assert!(!results[1].success);
    assert_eq!(results[1].amount, 0);
    assert_eq!(results[1].token, token());
    assert!(!results[2].success);
    assert_eq!(results[2].deposit_id, 7);
    assert_eq!(results[2].token, alice());
    assert_eq!(env.events.last(), Some(&Event::BatchWithdraw { depositor: alice(), count: 3 }));
    assert!(TimeLockVault::get_vault(&env, alice(), late).is_some());
    assert!(TimeLockVault::get_vault(&env, alice(), early).is_none());
}

#[test]
fn batch_withdraw_too_large() {
    let mut env = ready();
    let ids: Vec<u32> = (0..MAX_BATCH_SIZE + 1).collect();
    assert_eq!(TimeLockVault::batch_withdraw(&mut env, alice(), ids), Err(VaultError::BatchTooLarge));
    let ids: Vec<u32> = (0..MAX_BATCH_SIZE).collect();
    let results = TimeLockVault::batch_withdraw(&mut env, alice(), ids).unwrap();
    assert_eq!(results.len(), MAX_BATCH_SIZE as usize);
    assert!(results.iter().all(|r| !r.success));
}

#[test]
fn batch_emergency_withdraw_releases_locked_deposits() {
    let mut env = ready();
    let a = lock(&mut env, alice(), 100, 86_400, 0);
    let b = lock(&mut env, bob(), 250, 86_400, 0);
    let results =
        TimeLockVault::batch_emergency_withdraw(&mut env, admin(), vec![(alice(), a), (bob(), b), (bob(), 4)]).unwrap();
    assert!(results[0].success && results[0].amount == 100);
    assert!(results[1].success && results[1].amount == 250);
    assert!(!results[2].success);
    assert_eq!(results[2].amount, 0);
    assert_eq!(
        env.transfers[2..].to_vec(),
        vec![
            Transfer { token: token(), from: vault(), to: alice(), amount: 100 },
            Transfer { token: token(), from: vault(), to: bob(), amount: 250 },
        ]
    );
    assert_eq!(TimeLockVault::get_depositor_count(&env), 0);
}

#[test]
fn batch_emergency_withdraw_refusals() {
    let mut env = ready();
    assert_eq!(
        TimeLockVault::batch_emergency_withdraw(&mut env, bob(), vec![(alice(), 0)]),
        Err(VaultError::Unauthorized)
    );
    let items: Vec<(Address, u32)> = (0..MAX_BATCH_SIZE + 1).map(|i| (alice(), i)).collect();
    assert_eq!(
        TimeLockVault::batch_emergency_withdraw(&mut env, admin(), items),
        Err(VaultError::BatchTooLarge)
    );
}

// ----------------------------------------------------------------
//  Top-up and lock extension
// ----------------------------------------------------------------

#[test]
fn top_up_adds_to_amount() {
    let mut env = ready();
    let id = lock(&mut env, alice(), 500, 3_600, 0);
    assert_eq!(TimeLockVault::top_up(&mut env, alice(), id, 250), Ok(750));
    assert_eq!(TimeLockVault::get_vault(&env, alice(), id).unwrap().amount, 750);
    assert_eq!(TimeLockVault::get_vault(&env, alice(), id).unwrap().unlock_time, START + 3_600);
    assert_eq!(
        env.transfers.last(),
        Some(&Transfer { token: token(), from: alice(), to: vault(), amount: 250 })
    );
    assert_eq!(
        env.events.last(),
        Some(&Event::TopUp { depositor: alice(), deposit_id: id, token: token(), amount: 250, new_total: 750 })
    );
}

#[test]
fn top_up_refusals() {
    let mut env = fresh(Some(1_000), None);
    let id = lock(&mut env, alice(), 900, 3_600, 0);
    assert_eq!(TimeLockVault::top_up(&mut env, alice(), id, 0), Err(VaultError::InvalidAmount));
    assert_eq!(TimeLockVault::top_up(&mut env, alice(), 5, 10), Err(VaultError::NoDepositFound));
    assert_eq!(TimeLockVault::top_up(&mut env, alice(), id, 101), Err(VaultError::AmountTooLarge));
    assert_eq!(TimeLockVault::top_up(&mut env, alice(), id, 100), Ok(1_000));
}

#[test]
fn top_up_overflow_is_amount_too_large() {
    let mut env = fresh(Some(i128::MAX), None);
    let id = lock(&mut env, alice(), i128::MAX - 5, 3_600, 0);
    assert_eq!(TimeLockVault::top_up(&mut env, alice(), id, 6), Err(VaultError::AmountTooLarge));
    assert_eq!(TimeLockVault::top_up(&mut env, alice(), id, 5), Ok(i128::MAX));
}

#[test]
fn extend_lock_moves_unlock_later() {
    let mut env = ready();
    let id = lock(&mut env, alice(), 500, 3_600, 0);
    assert_eq!(
        TimeLockVault::extend_lock(&mut env, alice(), id, START + 3_600),
        Err(VaultError::UnlockTimeNotInFuture)
    );
    assert_eq!(
        TimeLockVault::extend_lock(&mut env, alice(), id, START + 157_788_001),
        Err(VaultError::LockDurationTooLong)
    );
    assert_eq!(
        TimeLockVault::extend_lock(&mut env, alice(), 3, START + 7_200),
        Err(VaultError::NoDepositFound)
    );
    TimeLockVault::extend_lock(&mut env, alice(), id, START + 7_200).unwrap();
    assert_eq!(TimeLockVault::get_vault(&env, alice(), id).unwrap().unlock_time, START + 7_200);
    assert_eq!(
        env.events.last(),
        Some(&Event::LockExtended {
            depositor: alice(),
            old_unlock_time: START + 3_600,
            new_unlock_time: START + 7_200
        })
    );
}

// ----------------------------------------------------------------
//  Migration
// ----------------------------------------------------------------

#[test]
fn migrate_to_ledger_requires_future_ledger() {
    let mut env = ready();
    let id = lock(&mut env, alice(), 500, 3_600, 0);
    assert_eq!(
        TimeLockVault::migrate_deposit_to_ledger(&mut env, admin(), alice(), id, START_SEQ),
        Err(VaultError::UnlockTimeNotInFuture)
    );
    TimeLockVault::migrate_deposit_to_ledger(&mut env, admin(), alice(), id, START_SEQ + 3).unwrap();
    assert_eq!(TimeLockVault::get_vault(&env, alice(), id), None);
    assert_eq!(TimeLockVault::get_vault_by_ledger(&env, alice(), id).unwrap().unlock_ledger, START_SEQ + 3);
    assert_eq!(
        TimeLockVault::migrate_deposit_to_time(&mut env, admin(), alice(), id, START),
        Err(VaultError::UnlockTimeNotInFuture)
    );
}

// ----------------------------------------------------------------
//  Administration
// ----------------------------------------------------------------

#[test]
fn transfer_admin_to_self_is_invalid() {
    let mut env = ready();
    assert_eq!(TimeLockVault::transfer_admin(&mut env, admin(), admin()), Err(VaultError::InvalidAdmin));
}

#[test]
fn accept_admin_only_by_nominee() {
    let mut env = ready();
    TimeLockVault::transfer_admin(&mut env, admin(), bob()).unwrap();
    assert_eq!(TimeLockVault::get_pending_admin(&env), Some(bob()));
    assert_eq!(TimeLockVault::accept_admin(&mut env, alice()), Err(VaultError::Unauthorized));
    TimeLockVault::cancel_transfer_admin(&mut env, admin()).unwrap();
    assert_eq!(TimeLockVault::get_pending_admin(&env), None);
    assert_eq!(TimeLockVault::accept_admin(&mut env, bob()), Err(VaultError::Unauthorized));
    assert_eq!(TimeLockVault::get_admin(&env), Some(admin()));
}

#[test]
fn renounced_vault_stays_trustless() {
    let mut env = ready();
    let id = lock(&mut env, alice(), 500, 120, 0);
    TimeLockVault::renounce_admin(&mut env, admin()).unwrap();
    assert_eq!(TimeLockVault::pause(&mut env, admin()), Err(VaultError::Unauthorized));
    assert_eq!(
        TimeLockVault::emergency_withdraw(&mut env, admin(), alice(), id),
        Err(VaultError::Unauthorized)
    );
    assert_eq!(TimeLockVault::freeze_depositor(&mut env, admin(), alice()), Err(VaultError::Unauthorized));
    assert_eq!(TimeLockVault::transfer_admin(&mut env, admin(), bob()), Err(VaultError::Unauthorized));
    env.ledger.timestamp += 120;
    assert_eq!(TimeLockVault::withdraw(&mut env, alice(), id), Ok(()));
    let status = TimeLockVault::vault_status(&env);
    assert!(!status.has_admin);
    assert_eq!(status.admin, None);
}

#[test]
fn pause_switches() {
    let mut env = ready();
    TimeLockVault::pause_deposits(&mut env, admin()).unwrap();
    assert!(TimeLockVault::is_paused(&env));
    TimeLockVault::unpause_deposits(&mut env, admin()).unwrap();
    assert!(!TimeLockVault::is_paused(&env));
    TimeLockVault::set_paused(&mut env, admin(), true).unwrap();
    assert!(TimeLockVault::vault_status(&env).paused);
    assert_eq!(TimeLockVault::set_paused(&mut env, bob(), false), Err(VaultError::Unauthorized));
    TimeLockVault::set_paused(&mut env, admin(), false).unwrap();
    assert!(!TimeLockVault::is_paused(&env));
}

#[test]
fn frozen_depositor_is_stopped_but_admin_can_release() {
    let mut env = ready();
    let id = lock(&mut env, alice(), 800, 60, 500);
    TimeLockVault::freeze_depositor(&mut env, admin(), alice()).unwrap();
    assert!(TimeLockVault::is_depositor_frozen(&env, alice()));
    assert_eq!(TimeLockVault::cancel_deposit(&mut env, alice(), id), Err(VaultError::DepositorFrozen));
    env.ledger.timestamp += 60;
    assert_eq!(TimeLockVault::withdraw(&mut env, alice(), id), Err(VaultError::DepositorFrozen));
    assert_eq!(TimeLockVault::top_up(&mut env, alice(), id, 1), Ok(801));
    TimeLockVault::emergency_withdraw(&mut env, admin(), alice(), id).unwrap();
    assert_eq!(env.transfers.last().unwrap().amount, 801);
}

// ----------------------------------------------------------------
//  Queries
// ----------------------------------------------------------------

#[test]
fn get_all_vaults_lists_active_deposits_by_depositor() {
    let mut env = ready();
    lock(&mut env, alice(), 10, 600, 0);
    lock(&mut env, bob(), 20, 600, 0);
    lock(&mut env, alice(), 30, 900, 0);
    let all = TimeLockVault::get_all_vaults(&env, 0, 10);
    let summary: Vec<(u64, u32, i128)> = all.iter().map(|v| (v.depositor.id, v.deposit_id, v.entry.amount)).collect();
    assert_eq!(summary, vec![(3, 0, 10), (3, 1, 30), (10, 0, 20)]);
    let second = TimeLockVault::get_all_vaults(&env, 1, 10);
    assert_eq!(second.len(), 1);
    assert_eq!(second[0].depositor, bob());
    assert!(TimeLockVault::get_all_vaults(&env, 5, 10).is_empty());
}

#[test]
fn get_vault_batch_follows_input_order() {
    let mut env = ready();
    lock(&mut env, bob(), 20, 600, 0);
    let r = TimeLockVault::get_vault_batch(&env, vec![alice(), bob(), bob()], 0);
    assert_eq!(r.len(), 3);
    assert_eq!(r[0], None);
    assert_eq!(r[1].unwrap().amount, 20);
    assert_eq!(r[2].unwrap().amount, 20);
}

#[test]
fn get_depositors_caps_page_size() {
    let mut env = ready();
    for i in 0..105u64 {
        let who = Address::new(100 + i);
        lock(&mut env, who, 1, 600, 0);
    }
    assert_eq!(TimeLockVault::get_depositor_count(&env), 105);
    let page = TimeLockVault::get_depositors(&env, 0, 1_000);
    assert_eq!(page.len(), MAX_DEPOSITORS_PAGE_SIZE as usize);
    let tail = TimeLockVault::get_depositors(&env, 100, 1_000);
    assert_eq!(tail.len(), 5);
    assert_eq!(tail[0], Address::new(200));
    assert_eq!(TimeLockVault::get_depositors(&env, u32::MAX, u32::MAX).len(), 0);
}

#[test]
fn depositor_count_counts_holders() {
    let mut env = ready();
    let a0 = lock(&mut env, alice(), 10, 60, 0);
    let a1 = lock(&mut env, alice(), 10, 60, 0);
    lock(&mut env, bob(), 10, 60, 0);
    assert_eq!(TimeLockVault::get_depositor_count(&env), 2);
    env.ledger.timestamp += 60;
    TimeLockVault::withdraw(&mut env, alice(), a0).unwrap();
    assert_eq!(TimeLockVault::get_depositor_count(&env), 2);
    TimeLockVault::withdraw(&mut env, alice(), a1).unwrap();
    assert_eq!(TimeLockVault::get_depositor_count(&env), 1);
    assert_eq!(TimeLockVault::get_depositors(&env, 0, 10), vec![bob()]);
    assert_eq!(TimeLockVault::vault_status(&env).depositor_count, 1);
}

#[test]
fn time_remaining_zero_exactly_at_unlock() {
    let mut env = ready();
    let id = lock(&mut env, alice(), 10, 600, 0);
    env.ledger.timestamp += 599;
    assert_eq!(TimeLockVault::time_remaining(&env, alice(), id), 1);
    assert_eq!(TimeLockVault::withdraw(&mut env, alice(), id), Err(VaultError::FundsStillLocked));
    env.ledger.timestamp += 1;
    assert_eq!(TimeLockVault::time_remaining(&env, alice(), id), 0);
    assert_eq!(TimeLockVault::withdraw(&mut env, alice(), id), Ok(()));
}

#[test]
fn depositor_index_list_helpers() {
    let mut env = ready();
    assert!(storage::get_depositor_index(&env).is_empty());
    storage::add_to_depositor_index(&mut env, &alice());
    storage::add_to_depositor_index(&mut env, &bob());
    storage::add_to_depositor_index(&mut env, &alice());
    assert_eq!(storage::get_depositor_index(&env), vec![alice(), bob(), alice()]);
    storage::remove_from_depositor_index(&mut env, &alice());
    assert_eq!(storage::get_depositor_index(&env), vec![bob()]);
    storage::remove_from_depositor_index(&mut env, &alice());
    assert_eq!(storage::get_depositor_index(&env), vec![bob()]);
    // the paginated depositor index is separate
    assert_eq!(TimeLockVault::get_depositor_count(&env), 0);
}

#[test]
fn migration_round_trip_keeps_terms() {
    let mut env = ready();
    let id = lock(&mut env, alice(), 4_321, 3_600, 750);
    let before = TimeLockVault::get_vault(&env, alice(), id).unwrap();
    TimeLockVault::migrate_deposit_to_ledger(&mut env, admin(), alice(), id, START_SEQ + 50).unwrap();
    TimeLockVault::migrate_deposit_to_time(&mut env, admin(), alice(), id, START + 9_000).unwrap();
    let after = TimeLockVault::get_vault(&env, alice(), id).unwrap();
    assert_eq!(after.unlock_time, START + 9_000);
    assert_eq!((after.token, after.amount, after.depositor, after.penalty_bps), (before.token, before.amount, before.depositor, before.penalty_bps));
    assert_eq!(TimeLockVault::get_vault_by_ledger(&env, alice(), id), None);
    assert_eq!(TimeLockVault::get_deposit_ids(&env, alice()), vec![id]);
    assert_eq!(
        env.events[env.events.len() - 2..].to_vec(),
        vec![
            Event::Migrated { depositor: alice(), deposit_id: id, to_ledger: true, to_time: false },
            Event::Migrated { depositor: alice(), deposit_id: id, to_ledger: false, to_time: true },
        ]
    );
}

#[test]
fn every_refusal_still_asks_for_authorization() {
    let mut env = ready();
    assert_eq!(TimeLockVault::pause(&mut env, bob()), Err(VaultError::Unauthorized));
    assert_eq!(TimeLockVault::withdraw(&mut env, alice(), 0), Err(VaultError::NoDepositFound));
    assert_eq!(TimeLockVault::accept_admin(&mut env, bob()), Err(VaultError::Unauthorized));
    assert_eq!(env.auths, vec![admin(), bob(), alice(), bob()]);
    assert!(env.transfers.is_empty());
    assert!(env.events.is_empty());
}

#[test]
fn batch_withdraw_refused_for_frozen_depositor() {
    let mut env = ready();
    let id = lock(&mut env, alice(), 300, 60, 0);
    env.ledger.timestamp += 60;
    TimeLockVault::freeze_depositor(&mut env, admin(), alice()).unwrap();
    assert_eq!(TimeLockVault::batch_withdraw(&mut env, alice(), vec![id]), Err(VaultError::DepositorFrozen));
    assert!(TimeLockVault::get_vault(&env, alice(), id).is_some());
    assert_eq!(env.transfers.len(), 1);
    // an oversized batch is reported first
    let ids: Vec<u32> = (0..MAX_BATCH_SIZE + 1).collect();
    assert_eq!(TimeLockVault::batch_withdraw(&mut env, alice(), ids), Err(VaultError::BatchTooLarge));
    TimeLockVault::unfreeze_depositor(&mut env, admin(), alice()).unwrap();
    let results = TimeLockVault::batch_withdraw(&mut env, alice(), vec![id]).unwrap();
    assert!(results[0].success);
}

#[test]
fn get_vault_batch_is_capped() {
    let mut env = ready();
    lock(&mut env, alice(), 20, 600, 0);
    let many: Vec<Address> = (0..30).map(|_| alice()).collect();
    let r = TimeLockVault::get_vault_batch(&env, many, 0);
    assert_eq!(r.len(), MAX_BATCH_SIZE as usize);
    assert!(r.iter().all(|e| e.unwrap().amount == 20));
    let exact: Vec<Address> = (0..MAX_BATCH_SIZE).map(|_| bob()).collect();
    assert_eq!(TimeLockVault::get_vault_batch(&env, exact, 0).len(), MAX_BATCH_SIZE as usize);
}

#[test]
fn ledger_lock_ceiling_does_not_wrap() {
    // a ceiling of 5 * 2^32 seconds is 2^32 ledgers, more than any u32 distance
    let mut env = fresh(None, Some(21_474_836_480));
    let r = TimeLockVault::deposit_by_ledger(&mut env, alice(), token(), 10, START_SEQ + 1_000, 0);
    assert_eq!(r, Ok(0));
    let r = TimeLockVault::deposit_by_ledger(&mut env, alice(), token(), 10, u32::MAX, 0);
    assert_eq!(r, Ok(1));
    // a ceiling of 100 ledgers still refuses 101
    let mut env = fresh(None, Some(500));
    let r = TimeLockVault::deposit_by_ledger(&mut env, alice(), token(), 10, START_SEQ + 101, 0);
    assert_eq!(r, Err(VaultError::LockDurationTooLong));
    let r = TimeLockVault::deposit_by_ledger(&mut env, alice(), token(), 10, START_SEQ + 100, 0);
    assert_eq!(r, Ok(0));
}

#[test]
fn batch_items_follow_earlier_items() {
    let mut env = ready();
    let id = lock(&mut env, alice(), 70, 60, 0);
    env.ledger.timestamp += 60;
    // the same id twice: paid once, then reported missing
    let results = TimeLockVault::batch_withdraw(&mut env, alice(), vec![id, id]).unwrap();
    assert!(results[0].success && results[0].amount == 70);
    assert!(!results[1].success && results[1].amount == 0);
    assert_eq!(env.transfers.iter().filter(|t| t.from == vault()).count(), 1);
}

#[test]
fn get_all_vaults_lists_ledger_locks_too() {
    let mut env = ready();
    lock(&mut env, alice(), 10, 600, 0);
    TimeLockVault::deposit_by_ledger(&mut env, alice(), token(), 40, START_SEQ + 100, 0).unwrap();
    let all = TimeLockVault::get_all_vaults(&env, 0, 10);
    assert_eq!(all.len(), 2);
    assert_eq!(all[1].deposit_id, 1);
    assert_eq!(all[1].entry.amount, 40);
    assert_eq!(all[1].entry.unlock_time, (START_SEQ as u64 + 100) * LEDGER_SECONDS);
}

fn tail(env: &Env, n: usize) -> Vec<Step> {
    env.journal[env.journal.len() - n..].to_vec()
}

#[test]
fn journal_withdraw_clears_storage_before_paying() {
    let mut env = ready();
    let id = lock(&mut env, alice(), 500, 60, 0);
    assert_eq!(tail(&env, 4), vec![Step::Auth, Step::Transfer, Step::Write, Step::Event]);
    env.ledger.timestamp += 60;
    TimeLockVault::withdraw(&mut env, alice(), id).unwrap();
    assert_eq!(tail(&env, 4), vec![Step::Auth, Step::Write, Step::Transfer, Step::Event]);
}

#[test]
fn journal_cancel_clears_storage_before_paying() {
    let mut env = ready();
    let id = lock(&mut env, alice(), 1_000, 3_600, 1_000);
    let before = env.journal.len();
    TimeLockVault::cancel_deposit(&mut env, alice(), id).unwrap();
    assert_eq!(
        env.journal[before..].to_vec(),
        vec![Step::Auth, Step::Write, Step::Transfer, Step::Transfer, Step::Event]
    );
}

#[test]
fn journal_refusal_only_asks_authorization() {
    let mut env = ready();
    let before = env.journal.len();
    assert_eq!(TimeLockVault::pause(&mut env, bob()), Err(VaultError::Unauthorized));
    assert_eq!(env.journal[before..].to_vec(), vec![Step::Auth]);
    let before = env.journal.len();
    TimeLockVault::pause(&mut env, admin()).unwrap();
    assert_eq!(env.journal[before..].to_vec(), vec![Step::Auth, Step::Write, Step::Event]);
}

#[test]
fn journal_batch_items_write_before_paying() {
    let mut env = ready();
    let a = lock(&mut env, alice(), 10, 60, 0);
    let b = lock(&mut env, alice(), 20, 60, 0);
    env.ledger.timestamp += 60;
    let before = env.journal.len();
    TimeLockVault::batch_withdraw(&mut env, alice(), vec![a, b]).unwrap();
    assert_eq!(
        env.journal[before..].to_vec(),
        vec![Step::Auth, Step::Write, Step::Transfer, Step::Write, Step::Transfer, Step::Event]
    );
}
