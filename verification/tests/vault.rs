use time_lock_vault::{
    Address, Env, TimeLockVault, Transfer, VaultEntry, VaultError, MAX_DEPOSIT_AMOUNT,
    MAX_LOCK_DURATION_SECS, MIN_LOCK_DURATION_SECS,
};

const VAULT: u64 = 1;

/// A fresh vault initialized by `admin`, with `alice` holding 10_000 of `token`.
/// Returns (env, token, admin, alice, fee_recipient).
fn setup() -> (Env, Address, Address, Address, Address) {
    let mut env = Env::new(Address::new(VAULT), 0, 0);
    let admin = Address::new(2);
    let alice = Address::new(3);
    let fee_recipient = Address::new(4);
    let token = Address::new(5);
    TimeLockVault::initialize(&mut env, admin, fee_recipient, None, None).unwrap();
    (env, token, admin, alice, fee_recipient)
}

fn setup_with_limits(
    max_deposit: Option<i128>,
    max_lock_secs: Option<u64>,
) -> (Env, Address, Address, Address) {
    let mut env = Env::new(Address::new(VAULT), 0, 0);
    let admin = Address::new(2);
    let alice = Address::new(3);
    let fee = Address::new(4);
    let token = Address::new(5);
    TimeLockVault::initialize(&mut env, admin, fee, max_deposit, max_lock_secs).unwrap();
    (env, token, admin, alice)
}

/// `who`'s balance of `token`: what was minted to it, moved by the vault's transfers.
fn balance(env: &Env, token: Address, who: Address, minted: i128) -> i128 {
    let mut b = minted;
    for t in env.transfers.iter() {
        if t.token == token {
            if t.to == who {
                b += t.amount;
            }
            if t.from == who {
                b -= t.amount;
            }
        }
    }
    b
}

fn advance_time(env: &mut Env, seconds: u64) {
    env.ledger.timestamp += seconds;
}

fn advance_ledger(env: &mut Env, ledgers: u32) {
    env.ledger.sequence += ledgers;
}

fn vault_addr() -> Address {
    Address::new(VAULT)
}

// ================================================================
//  Initialization
// ================================================================

#[test]
fn test_initialize_sets_admin() {
    let (env, _token, admin, _alice, _fee) = setup();
    assert_eq!(TimeLockVault::get_admin(&env), Some(admin));
}

#[test]
fn test_initialize_sets_fee_recipient() {
    let (env, _token, _admin, _alice, fee) = setup();
    assert_eq!(TimeLockVault::get_fee_recipient(&env), Some(fee));
}

#[test]
fn test_double_initialize_fails() {
    let (mut env, _token, admin, _alice, fee) = setup();
    let result = TimeLockVault::initialize(&mut env, admin, fee, None, None);
    assert_eq!(result, Err(VaultError::Unauthorized));
}

#[test]
fn test_deposit_basic_succeeds() {
    let (mut env, token, _admin, alice, _fee) = setup();
    let unlock_time = env.ledger.timestamp + 3600;
    let id = TimeLockVault::deposit(&mut env, alice, token, 1_000, unlock_time, 0).unwrap();
    assert_eq!(id, 0);
    assert_eq!(balance(&env, token, alice, 10_000), 9_000);
}

#[test]
fn test_deposit_zero_amount_fails() {
    let (mut env, token, _admin, alice, _fee) = setup();
    let unlock_time = env.ledger.timestamp + 3600;
    assert_eq!(
        TimeLockVault::deposit(&mut env, alice, token, 0, unlock_time, 0),
        Err(VaultError::InvalidAmount)
    );
}

#[test]
fn test_deposit_negative_amount_fails() {
    let (mut env, token, _admin, alice, _fee) = setup();
    let unlock_time = env.ledger.timestamp + 3600;
    assert_eq!(
        TimeLockVault::deposit(&mut env, alice, token, -1, unlock_time, 0),
        Err(VaultError::InvalidAmount)
    );
}

#[test]
fn test_deposit_amount_exceeds_max_fails() {
    let (mut env, token, _admin, alice, _fee) = setup();
    let unlock_time = env.ledger.timestamp + 3600;
    assert_eq!(
        TimeLockVault::deposit(&mut env, alice, token, MAX_DEPOSIT_AMOUNT + 1, unlock_time, 0),
        Err(VaultError::AmountTooLarge)
    );
}

#[test]
fn test_deposit_rejects_too_large_amounts() {
    let (mut env, token, _admin, alice, _fee) = setup();
    let unlock_time = env.ledger.timestamp + 3600;
    TimeLockVault::deposit(&mut env, alice, token, MAX_DEPOSIT_AMOUNT, unlock_time, 0).unwrap();
    let entry = TimeLockVault::get_vault(&env, alice, 0).expect("entry should exist");
    assert_eq!(entry.amount, MAX_DEPOSIT_AMOUNT);
}

#[test]
fn test_deposit_unlock_time_in_past_fails() {
    let (mut env, token, _admin, alice, _fee) = setup();
    let unlock_time = env.ledger.timestamp;
    assert_eq!(
        TimeLockVault::deposit(&mut env, alice, token, 1_000, unlock_time, 0),
        Err(VaultError::UnlockTimeNotInFuture)
    );
}

#[test]
fn test_deposit_lock_duration_too_long_fails() {
    let (mut env, token, _admin, alice, _fee) = setup();
    let unlock_time = env.ledger.timestamp + MAX_LOCK_DURATION_SECS + 1;
    assert_eq!(
        TimeLockVault::deposit(&mut env, alice, token, 1_000, unlock_time, 0),
        Err(VaultError::LockDurationTooLong)
    );
}

#[test]
fn test_deposit_at_max_duration_succeeds() {
    let (mut env, token, _admin, alice, _fee) = setup();
    let unlock_time = env.ledger.timestamp + MAX_LOCK_DURATION_SECS;
    TimeLockVault::deposit(&mut env, alice, token, 1_000, unlock_time, 0).unwrap();
    assert!(TimeLockVault::get_vault(&env, alice, 0).is_some());
}

#[test]
fn test_deposit_invalid_penalty_bps_fails() {
    let (mut env, token, _admin, alice, _fee) = setup();
    let unlock_time = env.ledger.timestamp + 3600;
    assert_eq!(
        TimeLockVault::deposit(&mut env, alice, token, 1_000, unlock_time, 10_001),
        Err(VaultError::InvalidPenaltyBps)
    );
}

#[test]
fn test_deposit_lock_duration_too_short_fails() {
    let (mut env, token, _admin, alice, _fee) = setup();
    let unlock_time = env.ledger.timestamp + 10;
    assert_eq!(
        TimeLockVault::deposit(&mut env, alice, token, 1_000, unlock_time, 0),
        Err(VaultError::LockDurationTooShort)
    );
}

// ================================================================
//  Withdraw
// ================================================================

#[test]
fn test_withdraw_after_unlock_succeeds() {
    let (mut env, token, _admin, alice, _fee) = setup();
    let unlock_time = env.ledger.timestamp + 3600;
    TimeLockVault::deposit(&mut env, alice, token, 1_000, unlock_time, 0).unwrap();
    advance_time(&mut env, 3601);
    TimeLockVault::withdraw(&mut env, alice, 0).unwrap();
    assert!(TimeLockVault::get_vault(&env, alice, 0).is_none());
    assert_eq!(balance(&env, token, alice, 10_000), 10_000);
}

#[test]
fn test_withdraw_exactly_at_unlock_time_succeeds() {
    let (mut env, token, _admin, alice, _fee) = setup();
    let unlock_time = env.ledger.timestamp + 3600;
    TimeLockVault::deposit(&mut env, alice, token, 1_000, unlock_time, 0).unwrap();
    advance_time(&mut env, 3600);
    TimeLockVault::withdraw(&mut env, alice, 0).unwrap();
    assert!(TimeLockVault::get_vault(&env, alice, 0).is_none());
}

#[test]
fn test_withdraw_before_unlock_fails() {
    let (mut env, token, _admin, alice, _fee) = setup();
    let unlock_time = env.ledger.timestamp + 3600;
    TimeLockVault::deposit(&mut env, alice, token, 1_000, unlock_time, 0).unwrap();
    advance_time(&mut env, 1800);
    let result = TimeLockVault::withdraw(&mut env, alice, 0);
    assert_eq!(result, Err(VaultError::FundsStillLocked));
}

#[test]
fn test_withdraw_no_deposit_fails() {
    let (mut env, _token, _admin, alice, _fee) = setup();
    let result = TimeLockVault::withdraw(&mut env, alice, 0);
    assert_eq!(result, Err(VaultError::NoDepositFound));
}

// ================================================================
//  cancel_deposit
// ================================================================

#[test]
fn test_cancel_deposit_zero_penalty_returns_full_amount() {
    let (mut env, token, _admin, alice, _fee) = setup();
    let unlock_time = env.ledger.timestamp + 3600;
    TimeLockVault::deposit(&mut env, alice, token, 1_000, unlock_time, 0).unwrap();
    TimeLockVault::cancel_deposit(&mut env, alice, 0).unwrap();
    assert!(TimeLockVault::get_vault(&env, alice, 0).is_none());
    assert_eq!(balance(&env, token, alice, 10_000), 10_000);
}

#[test]
fn test_cancel_deposit_partial_penalty_splits_correctly() {
    let (mut env, token, _admin, alice, fee) = setup();
    let unlock_time = env.ledger.timestamp + 3600;
    TimeLockVault::deposit(&mut env, alice, token, 1_000, unlock_time, 1_000).unwrap();
    TimeLockVault::cancel_deposit(&mut env, alice, 0).unwrap();
    assert!(TimeLockVault::get_vault(&env, alice, 0).is_none());
    assert_eq!(balance(&env, token, alice, 10_000), 9_900);
    assert_eq!(balance(&env, token, fee, 0), 100);
}

#[test]
fn test_cancel_deposit_100_percent_penalty() {
    let (mut env, token, _admin, alice, fee) = setup();
    let unlock_time = env.ledger.timestamp + 3600;
    TimeLockVault::deposit(&mut env, alice, token, 1_000, unlock_time, 10_000).unwrap();
    TimeLockVault::cancel_deposit(&mut env, alice, 0).unwrap();
    assert!(TimeLockVault::get_vault(&env, alice, 0).is_none());
    assert_eq!(balance(&env, token, alice, 10_000), 9_000);
    assert_eq!(balance(&env, token, fee, 0), 1_000);
}

#[test]
fn test_cancel_deposit_no_deposit_fails() {
    let (mut env, _token, _admin, alice, _fee) = setup();
    assert_eq!(
        TimeLockVault::cancel_deposit(&mut env, alice, 0),
        Err(VaultError::NoDepositFound)
    );
}

#[test]
fn test_cancel_deposit_after_unlock_fails() {
    let (mut env, token, _admin, alice, _fee) = setup();
    let unlock_time = env.ledger.timestamp + 3600;
    TimeLockVault::deposit(&mut env, alice, token, 1_000, unlock_time, 500).unwrap();
    advance_time(&mut env, 3601);
    assert_eq!(
        TimeLockVault::cancel_deposit(&mut env, alice, 0),
        Err(VaultError::FundsAlreadyUnlocked)
    );
}

// ================================================================
//  Multiple deposits
// ================================================================

#[test]
fn test_multiple_deposits_same_address() {
    let (mut env, token, _admin, alice, fee_recipient) = setup();
    let t1 = env.ledger.timestamp + 3600;
    let t2 = env.ledger.timestamp + 7200;
    let t3 = env.ledger.timestamp + 10800;

    let id0 = TimeLockVault::deposit(&mut env, alice, token, 1_000, t1, 0).unwrap();
    let id1 = TimeLockVault::deposit(&mut env, alice, token, 2_000, t2, 0).unwrap();
    let id2 = TimeLockVault::deposit(&mut env, alice, token, 3_000, t3, 0).unwrap();

    assert_eq!(id0, 0);
    assert_eq!(id1, 1);
    assert_eq!(id2, 2);

    TimeLockVault::cancel_deposit(&mut env, alice, id0).unwrap();
    assert!(TimeLockVault::get_vault(&env, alice, id0).is_none());
    // get_deposit_ids lists the deposits still active, in id order
    assert_eq!(TimeLockVault::get_deposit_ids(&env, alice), vec![1, 2]);
    assert_eq!(TimeLockVault::get_fee_recipient(&env), Some(fee_recipient));
}

#[test]
fn test_get_deposit_ids_returns_active_ids() {
    let (mut env, token, _admin, alice, _fee) = setup();
    let t1 = env.ledger.timestamp + 3600;
    let t2 = env.ledger.timestamp + 7200;
    TimeLockVault::deposit(&mut env, alice, token, 1_000, t1, 0).unwrap();
    TimeLockVault::deposit(&mut env, alice, token, 2_000, t2, 0).unwrap();
    let ids = TimeLockVault::get_deposit_ids(&env, alice);
    assert_eq!(ids.len(), 2);
    assert_eq!(ids[0], 0);
    assert_eq!(ids[1], 1);
}

#[test]
fn test_partial_withdrawal_leaves_other_deposits_intact() {
    let (mut env, token, _admin, alice, _fee) = setup();
    let t1 = env.ledger.timestamp + 3600;
    let t2 = env.ledger.timestamp + 7200;
    TimeLockVault::deposit(&mut env, alice, token, 1_000, t1, 0).unwrap();
    TimeLockVault::deposit(&mut env, alice, token, 2_000, t2, 0).unwrap();
    advance_time(&mut env, 3601);
    TimeLockVault::withdraw(&mut env, alice, 0).unwrap();

    assert!(TimeLockVault::get_vault(&env, alice, 0).is_none());
    assert!(TimeLockVault::get_vault(&env, alice, 1).is_some());
    assert_eq!(TimeLockVault::get_vault(&env, alice, 1).unwrap().amount, 2_000);

    let ids = TimeLockVault::get_deposit_ids(&env, alice);
    assert_eq!(ids.len(), 1);
    assert_eq!(ids[0], 1);

    assert_eq!(balance(&env, token, alice, 10_000 + 3_000), 10_000 + 3_000 - 3_000 + 1_000);
}

#[test]
fn test_deposits_have_independent_unlock_times() {
    let (mut env, token, _admin, alice, _fee) = setup();
    let t1 = env.ledger.timestamp + 3600;
    let t2 = env.ledger.timestamp + 7200;
    TimeLockVault::deposit(&mut env, alice, token, 1_000, t1, 0).unwrap();
    TimeLockVault::deposit(&mut env, alice, token, 1_000, t2, 0).unwrap();
    advance_time(&mut env, 3601);
    TimeLockVault::withdraw(&mut env, alice, 0).unwrap();
    let result = TimeLockVault::withdraw(&mut env, alice, 1);
    assert_eq!(result, Err(VaultError::FundsStillLocked));
}

#[test]
fn test_deposit_ids_increment_after_withdrawal() {
    let (mut env, token, _admin, alice, _fee) = setup();
    let t1 = env.ledger.timestamp + 3600;
    let id0 = TimeLockVault::deposit(&mut env, alice, token, 1_000, t1, 0).unwrap();
    assert_eq!(id0, 0);
    advance_time(&mut env, 3601);
    TimeLockVault::withdraw(&mut env, alice, 0).unwrap();
    let t2 = env.ledger.timestamp + 3600;
    let id1 = TimeLockVault::deposit(&mut env, alice, token, 1_000, t2, 0).unwrap();
    assert_eq!(id1, 1);
}

// ================================================================
//  deposit_for
// ================================================================

#[test]
fn test_deposit_for_different_addresses_succeeds() {
    let (mut env, token, _admin, alice, _fee) = setup();
    let bob = Address::new(10);
    let unlock_time = env.ledger.timestamp + 3600;
    let id = TimeLockVault::deposit_for(&mut env, alice, bob, token, 1_000, unlock_time, 0).unwrap();

    assert_eq!(id, 0);
    let entry = TimeLockVault::get_vault(&env, bob, id).expect("entry should exist");
    assert_eq!(entry.amount, 1_000);
    assert_eq!(entry.token, token);
    assert_eq!(entry.depositor, bob);
    assert_eq!(entry.penalty_bps, 0);

    assert_eq!(balance(&env, token, alice, 10_000 + 5_000), 14_000);
    assert_eq!(balance(&env, token, bob, 0), 0);
    assert_eq!(balance(&env, token, vault_addr(), 0), 1_000);
}

#[test]
fn test_deposit_for_beneficiary_can_withdraw() {
    let (mut env, token, _admin, alice, _fee) = setup();
    let bob = Address::new(10);
    let unlock_time = env.ledger.timestamp + 3600;
    let id = TimeLockVault::deposit_for(&mut env, alice, bob, token, 1_000, unlock_time, 0).unwrap();
    assert_eq!(TimeLockVault::withdraw(&mut env, bob, id), Err(VaultError::FundsStillLocked));
    advance_time(&mut env, 3601);
    TimeLockVault::withdraw(&mut env, bob, id).unwrap();
    assert!(TimeLockVault::get_vault(&env, bob, id).is_none());
    assert_eq!(balance(&env, token, bob, 0), 1_000);
}

#[test]
fn test_deposit_for_payer_has_no_access() {
    let (mut env, token, _admin, alice, _fee) = setup();
    let bob = Address::new(10);
    let unlock_time = env.ledger.timestamp + 3600;
    let id = TimeLockVault::deposit_for(&mut env, alice, bob, token, 1_000, unlock_time, 0).unwrap();
    assert_eq!(TimeLockVault::withdraw(&mut env, alice, id), Err(VaultError::NoDepositFound));
    assert_eq!(
        TimeLockVault::cancel_deposit(&mut env, alice, id),
        Err(VaultError::NoDepositFound)
    );
}

// ================================================================
//  Time helpers
// ================================================================

#[test]
fn test_time_remaining_before_unlock() {
    let (mut env, token, _admin, alice, _fee) = setup();
    let unlock_time = env.ledger.timestamp + 3600;
    TimeLockVault::deposit(&mut env, alice, token, 1_000, unlock_time, 0).unwrap();
    advance_time(&mut env, 1800);
    assert_eq!(TimeLockVault::time_remaining(&env, alice, 0), 1800);
}

#[test]
fn test_time_remaining_after_unlock_is_zero() {
    let (mut env, token, _admin, alice, _fee) = setup();
    let unlock_time = env.ledger.timestamp + 3600;
    TimeLockVault::deposit(&mut env, alice, token, 1_000, unlock_time, 0).unwrap();
    advance_time(&mut env, 7200);
    assert_eq!(TimeLockVault::time_remaining(&env, alice, 0), 0);
}

#[test]
fn test_time_remaining_no_deposit_is_zero() {
    let (env, _token, _admin, alice, _fee) = setup();
    assert_eq!(TimeLockVault::time_remaining(&env, alice, 0), 0);
}

#[test]
fn test_get_time_returns_ledger_timestamp() {
    let (env, _token, _admin, _alice, _fee) = setup();
    assert_eq!(TimeLockVault::get_time(&env), env.ledger.timestamp);
}

// ================================================================
//  Emergency Withdrawal
// ================================================================

#[test]
fn test_emergency_withdraw_by_admin_before_unlock_succeeds() {
    let (mut env, token, admin, alice, _fee) = setup();
    let unlock_time = env.ledger.timestamp + 86400;
    TimeLockVault::deposit(&mut env, alice, token, 2_000, unlock_time, 0).unwrap();
    TimeLockVault::emergency_withdraw(&mut env, admin, alice, 0).unwrap();
    assert!(TimeLockVault::get_vault(&env, alice, 0).is_none());
    assert_eq!(balance(&env, token, alice, 10_000), 10_000);
}

#[test]
fn test_emergency_withdraw_by_non_admin_fails() {
    let (mut env, token, _admin, alice, _fee) = setup();
    let bob = Address::new(10);
    let unlock_time = env.ledger.timestamp + 86400;
    TimeLockVault::deposit(&mut env, alice, token, 2_000, unlock_time, 0).unwrap();
    let result = TimeLockVault::emergency_withdraw(&mut env, bob, alice, 0);
    assert_eq!(result, Err(VaultError::Unauthorized));
}

#[test]
fn test_emergency_withdraw_no_deposit_fails() {
    let (mut env, _token, admin, alice, _fee) = setup();
    let result = TimeLockVault::emergency_withdraw(&mut env, admin, alice, 0);
    assert_eq!(result, Err(VaultError::NoDepositFound));
}

// ================================================================
//  Admin Transfer — two-step
// ================================================================

#[test]
fn test_transfer_admin_two_step_succeeds() {
    let (mut env, _token, admin, _alice, _fee) = setup();
    let new_admin = Address::new(20);
    TimeLockVault::transfer_admin(&mut env, admin, new_admin).unwrap();
    assert_eq!(TimeLockVault::get_pending_admin(&env), Some(new_admin));
    assert_eq!(TimeLockVault::get_admin(&env), Some(admin));
    TimeLockVault::accept_admin(&mut env, new_admin).unwrap();
    assert_eq!(TimeLockVault::get_admin(&env), Some(new_admin));
    assert_eq!(TimeLockVault::get_pending_admin(&env), None);
}

#[test]
fn test_transfer_admin_non_admin_cannot_initiate() {
    let (mut env, _token, _admin, _alice, _fee) = setup();
    let bob = Address::new(10);
    let carol = Address::new(11);
    assert_eq!(
        TimeLockVault::transfer_admin(&mut env, bob, carol),
        Err(VaultError::Unauthorized)
    );
}

#[test]
fn test_renounce_admin_removes_admin() {
    let (mut env, _token, admin, _alice, _fee) = setup();
    TimeLockVault::renounce_admin(&mut env, admin).unwrap();
    assert_eq!(TimeLockVault::get_admin(&env), None);
}

// ================================================================
//  Depositor List / Pagination
// ================================================================

#[test]
fn test_depositor_count_empty() {
    let (env, _token, _admin, _alice, _fee) = setup();
    assert_eq!(TimeLockVault::get_depositor_count(&env), 0);
}

#[test]
fn test_depositor_count_single_entry() {
    let (mut env, token, _admin, alice, _fee) = setup();
    let unlock_time = env.ledger.timestamp + 3600;
    TimeLockVault::deposit(&mut env, alice, token, 1_000, unlock_time, 0).unwrap();
    assert_eq!(TimeLockVault::get_depositor_count(&env), 1);
}

#[test]
fn test_depositor_removed_on_withdraw() {
    let (mut env, token, _admin, alice, _fee) = setup();
    let unlock_time = env.ledger.timestamp + 3600;
    TimeLockVault::deposit(&mut env, alice, token, 1_000, unlock_time, 0).unwrap();
    assert_eq!(TimeLockVault::get_depositor_count(&env), 1);
    advance_time(&mut env, 3601);
    TimeLockVault::withdraw(&mut env, alice, 0).unwrap();
    assert_eq!(TimeLockVault::get_depositor_count(&env), 0);
}

#[test]
fn test_get_depositors_pagination() {
    let (mut env, token, _admin, alice, _fee) = setup();
    let bob = Address::new(10);
    let carol = Address::new(11);
    let t1 = env.ledger.timestamp + 3600;
    let t2 = env.ledger.timestamp + 7200;
    let t3 = env.ledger.timestamp + 10800;
    TimeLockVault::deposit(&mut env, alice, token, 1_000, t1, 0).unwrap();
    TimeLockVault::deposit(&mut env, bob, token, 1_000, t2, 0).unwrap();
    TimeLockVault::deposit(&mut env, carol, token, 1_000, t3, 0).unwrap();

    let page1 = TimeLockVault::get_depositors(&env, 0, 2);
    assert_eq!(page1.len(), 2);
    let page2 = TimeLockVault::get_depositors(&env, 2, 2);
    assert_eq!(page2.len(), 1);
}

// ================================================================
//  Pause / Unpause
// ================================================================

#[test]
fn test_pause_by_admin_succeeds() {
    let (mut env, _token, admin, _alice, _fee) = setup();
    assert!(!TimeLockVault::is_paused(&env));
    TimeLockVault::pause(&mut env, admin).unwrap();
    assert!(TimeLockVault::is_paused(&env));
}

#[test]
fn test_pause_by_non_admin_fails() {
    let (mut env, _token, _admin, alice, _fee) = setup();
    assert_eq!(TimeLockVault::pause(&mut env, alice), Err(VaultError::Unauthorized));
}

#[test]
fn test_deposit_fails_when_paused() {
    let (mut env, token, admin, alice, _fee) = setup();
    TimeLockVault::pause(&mut env, admin).unwrap();
    let unlock_time = env.ledger.timestamp + 3600;
    assert_eq!(
        TimeLockVault::deposit(&mut env, alice, token, 1_000, unlock_time, 0),
        Err(VaultError::ContractPaused)
    );
}

#[test]
fn test_withdraw_succeeds_when_paused() {
    let (mut env, token, admin, alice, _fee) = setup();
    let unlock_time = env.ledger.timestamp + 3600;
    TimeLockVault::deposit(&mut env, alice, token, 1_000, unlock_time, 0).unwrap();
    TimeLockVault::pause(&mut env, admin).unwrap();
    advance_time(&mut env, 3601);
    TimeLockVault::withdraw(&mut env, alice, 0).unwrap();
    assert!(TimeLockVault::get_vault(&env, alice, 0).is_none());
}

// ================================================================
//  deposit_by_ledger
// ================================================================

#[test]
fn test_deposit_by_ledger_success() {
    let (mut env, token, _admin, alice, _fee) = setup();
    let current_ledger = env.ledger.sequence;
    let unlock_ledger = current_ledger + 1000;
    let id = TimeLockVault::deposit_by_ledger(&mut env, alice, token, 1_000, unlock_ledger, 0).unwrap();
    assert_eq!(id, 0);
    assert_eq!(balance(&env, token, alice, 10_000), 9_000);
}

#[test]
fn test_deposit_by_ledger_zero_amount_fails() {
    let (mut env, token, _admin, alice, _fee) = setup();
    let unlock_ledger = env.ledger.sequence + 1000;
    assert_eq!(
        TimeLockVault::deposit_by_ledger(&mut env, alice, token, 0, unlock_ledger, 0),
        Err(VaultError::InvalidAmount)
    );
}

#[test]
fn test_deposit_by_ledger_past_ledger_fails() {
    let (mut env, token, _admin, alice, _fee) = setup();
    let current = env.ledger.sequence;
    assert_eq!(
        TimeLockVault::deposit_by_ledger(&mut env, alice, token, 1_000, current, 0),
        Err(VaultError::UnlockTimeNotInFuture)
    );
}

#[test]
fn test_deposit_by_ledger_full_lifecycle() {
    let (mut env, token, _admin, alice, _fee) = setup();
    let unlock_ledger = env.ledger.sequence + 1000;
    let id = TimeLockVault::deposit_by_ledger(&mut env, alice, token, 1_000, unlock_ledger, 0).unwrap();
    assert_eq!(TimeLockVault::withdraw(&mut env, alice, id), Err(VaultError::FundsStillLocked));
    advance_ledger(&mut env, 1000);
    TimeLockVault::withdraw(&mut env, alice, id).unwrap();
    assert!(TimeLockVault::get_vault_by_ledger(&env, alice, id).is_none());
    assert_eq!(balance(&env, token, alice, 10_000), 10_000);
}

#[test]
fn test_get_vault_by_ledger_returns_entry() {
    let (mut env, token, _admin, alice, _fee) = setup();
    let unlock_ledger = env.ledger.sequence + 1_000;
    let id = TimeLockVault::deposit_by_ledger(&mut env, alice, token, 1_000, unlock_ledger, 0).unwrap();
    let entry = TimeLockVault::get_vault_by_ledger(&env, alice, id).expect("entry must exist");
    assert_eq!(entry.amount, 1_000);
    assert_eq!(entry.unlock_ledger, unlock_ledger);
    assert_eq!(entry.depositor, alice);
    assert_eq!(entry.token, token);
}

// ================================================================
//  withdraw_to
// ================================================================

#[test]
fn test_withdraw_to_time_based_success() {
    let (mut env, token, _admin, alice, _fee) = setup();
    let recipient = Address::new(30);
    let unlock_time = env.ledger.timestamp + 3600;
    let id = TimeLockVault::deposit(&mut env, alice, token, 1_000, unlock_time, 0).unwrap();
    advance_time(&mut env, 3601);
    TimeLockVault::withdraw_to(&mut env, alice, id, recipient).unwrap();
    assert!(TimeLockVault::get_vault(&env, alice, id).is_none());
    assert_eq!(balance(&env, token, recipient, 0), 1_000);
    assert_eq!(balance(&env, token, alice, 10_000), 9_000);
}

#[test]
fn test_withdraw_to_before_unlock_fails() {
    let (mut env, token, _admin, alice, _fee) = setup();
    let recipient = Address::new(30);
    let unlock_time = env.ledger.timestamp + 3600;
    let id = TimeLockVault::deposit(&mut env, alice, token, 1_000, unlock_time, 0).unwrap();
    assert_eq!(
        TimeLockVault::withdraw_to(&mut env, alice, id, recipient),
        Err(VaultError::FundsStillLocked)
    );
}

#[test]
fn test_withdraw_to_no_deposit_fails() {
    let (mut env, _token, _admin, alice, _fee) = setup();
    let recipient = Address::new(30);
    assert_eq!(
        TimeLockVault::withdraw_to(&mut env, alice, 0, recipient),
        Err(VaultError::NoDepositFound)
    );
}

#[test]
fn test_withdraw_to_ledger_based_success() {
    let (mut env, token, _admin, alice, _fee) = setup();
    let recipient = Address::new(30);
    let unlock_ledger = env.ledger.sequence + 1000;
    let id = TimeLockVault::deposit_by_ledger(&mut env, alice, token, 1_000, unlock_ledger, 0).unwrap();
    advance_ledger(&mut env, 1000);
    TimeLockVault::withdraw_to(&mut env, alice, id, recipient).unwrap();
    assert!(TimeLockVault::get_vault_by_ledger(&env, alice, id).is_none());
    assert_eq!(balance(&env, token, recipient, 0), 1_000);
    assert_eq!(balance(&env, token, alice, 10_000), 9_000);
}

#[test]
fn test_withdraw_to_ledger_based_before_unlock_fails() {
    let (mut env, token, _admin, alice, _fee) = setup();
    let recipient = Address::new(30);
    let unlock_ledger = env.ledger.sequence + 1000;
    let id = TimeLockVault::deposit_by_ledger(&mut env, alice, token, 1_000, unlock_ledger, 0).unwrap();
    assert_eq!(
        TimeLockVault::withdraw_to(&mut env, alice, id, recipient),
        Err(VaultError::FundsStillLocked)
    );
}

#[test]
fn test_withdraw_to_removes_depositor() {
    let (mut env, token, _admin, alice, _fee) = setup();
    let recipient = Address::new(30);
    let unlock_time = env.ledger.timestamp + 3600;
    TimeLockVault::deposit(&mut env, alice, token, 1_000, unlock_time, 0).unwrap();
    assert_eq!(TimeLockVault::get_depositor_count(&env), 1);
    advance_time(&mut env, 3601);
    TimeLockVault::withdraw_to(&mut env, alice, 0, recipient).unwrap();
    assert_eq!(TimeLockVault::get_depositor_count(&env), 0);
}

// ================================================================
//  Freeze / Unfreeze
// ================================================================

#[test]
fn test_freeze_depositor_by_admin_succeeds() {
    let (mut env, _token, admin, alice, _fee) = setup();
    assert!(!TimeLockVault::is_depositor_frozen(&env, alice));
    TimeLockVault::freeze_depositor(&mut env, admin, alice).unwrap();
    assert!(TimeLockVault::is_depositor_frozen(&env, alice));
}

#[test]
fn test_unfreeze_depositor_by_admin_succeeds() {
    let (mut env, _token, admin, alice, _fee) = setup();
    TimeLockVault::freeze_depositor(&mut env, admin, alice).unwrap();
    assert!(TimeLockVault::is_depositor_frozen(&env, alice));
    TimeLockVault::unfreeze_depositor(&mut env, admin, alice).unwrap();
    assert!(!TimeLockVault::is_depositor_frozen(&env, alice));
}

#[test]
fn test_freeze_depositor_by_non_admin_fails() {
    let (mut env, _token, _admin, alice, _fee) = setup();
    let bob = Address::new(10);
    assert_eq!(
        TimeLockVault::freeze_depositor(&mut env, bob, alice),
        Err(VaultError::Unauthorized)
    );
}

#[test]
fn test_deposit_fails_when_frozen() {
    let (mut env, token, admin, alice, _fee) = setup();
    TimeLockVault::freeze_depositor(&mut env, admin, alice).unwrap();
    let unlock_time = env.ledger.timestamp + 3600;
    assert_eq!(
        TimeLockVault::deposit(&mut env, alice, token, 1_000, unlock_time, 0),
        Err(VaultError::DepositorFrozen)
    );
}

#[test]
fn test_deposit_by_ledger_fails_when_frozen() {
    let (mut env, token, admin, alice, _fee) = setup();
    TimeLockVault::freeze_depositor(&mut env, admin, alice).unwrap();
    let unlock_ledger = env.ledger.sequence + 1000;
    assert_eq!(
        TimeLockVault::deposit_by_ledger(&mut env, alice, token, 1_000, unlock_ledger, 0),
        Err(VaultError::DepositorFrozen)
    );
}

#[test]
fn test_withdraw_fails_when_frozen() {
    let (mut env, token, admin, alice, _fee) = setup();
    let unlock_time = env.ledger.timestamp + 3600;
    TimeLockVault::deposit(&mut env, alice, token, 1_000, unlock_time, 0).unwrap();
    advance_time(&mut env, 3601);
    TimeLockVault::freeze_depositor(&mut env, admin, alice).unwrap();
    assert_eq!(TimeLockVault::withdraw(&mut env, alice, 0), Err(VaultError::DepositorFrozen));
}

#[test]
fn test_withdraw_to_fails_when_frozen() {
    let (mut env, token, admin, alice, _fee) = setup();
    let recipient = Address::new(30);
    let unlock_time = env.ledger.timestamp + 3600;
    TimeLockVault::deposit(&mut env, alice, token, 1_000, unlock_time, 0).unwrap();
    advance_time(&mut env, 3601);
    TimeLockVault::freeze_depositor(&mut env, admin, alice).unwrap();
    assert_eq!(
        TimeLockVault::withdraw_to(&mut env, alice, 0, recipient),
        Err(VaultError::DepositorFrozen)
    );
}

#[test]
fn test_cancel_deposit_fails_when_frozen() {
    let (mut env, token, admin, alice, _fee) = setup();
    let unlock_time = env.ledger.timestamp + 3600;
    TimeLockVault::deposit(&mut env, alice, token, 1_000, unlock_time, 0).unwrap();
    TimeLockVault::freeze_depositor(&mut env, admin, alice).unwrap();
    assert_eq!(
        TimeLockVault::cancel_deposit(&mut env, alice, 0),
        Err(VaultError::DepositorFrozen)
    );
}

#[test]
fn test_emergency_withdraw_still_works_when_frozen() {
    let (mut env, token, admin, alice, _fee) = setup();
    let unlock_time = env.ledger.timestamp + 86400;
    TimeLockVault::deposit(&mut env, alice, token, 2_000, unlock_time, 0).unwrap();
    TimeLockVault::freeze_depositor(&mut env, admin, alice).unwrap();
    TimeLockVault::emergency_withdraw(&mut env, admin, alice, 0).unwrap();
    assert!(TimeLockVault::get_vault(&env, alice, 0).is_none());
}

#[test]
fn test_unfreeze_restores_deposit_capability() {
    let (mut env, token, admin, alice, _fee) = setup();
    TimeLockVault::freeze_depositor(&mut env, admin, alice).unwrap();
    let unlock_time = env.ledger.timestamp + 3600;
    assert_eq!(
        TimeLockVault::deposit(&mut env, alice, token, 1_000, unlock_time, 0),
        Err(VaultError::DepositorFrozen)
    );
    TimeLockVault::unfreeze_depositor(&mut env, admin, alice).unwrap();
    TimeLockVault::deposit(&mut env, alice, token, 1_000, unlock_time, 0).unwrap();
    assert!(TimeLockVault::get_vault(&env, alice, 0).is_some());
}

// ================================================================
//  Migration
// ================================================================

#[test]
fn test_migrate_time_to_ledger_succeeds() {
    let (mut env, token, admin, alice, _fee) = setup();
    let unlock_time = env.ledger.timestamp + 3600;
    let id = TimeLockVault::deposit(&mut env, alice, token, 1_000, unlock_time, 0).unwrap();
    let new_unlock_ledger = env.ledger.sequence + 500;
    TimeLockVault::migrate_deposit_to_ledger(&mut env, admin, alice, id, new_unlock_ledger).unwrap();
    assert!(TimeLockVault::get_vault(&env, alice, id).is_none());
    let ledger_entry =
        TimeLockVault::get_vault_by_ledger(&env, alice, id).expect("should exist after migration");
    assert_eq!(ledger_entry.unlock_ledger, new_unlock_ledger);
    assert_eq!(ledger_entry.amount, 1_000);
}

#[test]
fn test_migrate_ledger_to_time_succeeds() {
    let (mut env, token, admin, alice, _fee) = setup();
    let unlock_ledger = env.ledger.sequence + 1000;
    let id = TimeLockVault::deposit_by_ledger(&mut env, alice, token, 1_000, unlock_ledger, 0).unwrap();
    let new_unlock_time = env.ledger.timestamp + 7200;
    TimeLockVault::migrate_deposit_to_time(&mut env, admin, alice, id, new_unlock_time).unwrap();
    assert!(TimeLockVault::get_vault_by_ledger(&env, alice, id).is_none());
    let time_entry = TimeLockVault::get_vault(&env, alice, id).expect("should exist after migration");
    assert_eq!(time_entry.unlock_time, new_unlock_time);
    assert_eq!(time_entry.amount, 1_000);
}

#[test]
fn test_migrate_by_non_admin_fails() {
    let (mut env, token, _admin, alice, _fee) = setup();
    let bob = Address::new(10);
    let unlock_time = env.ledger.timestamp + 3600;
    let id = TimeLockVault::deposit(&mut env, alice, token, 1_000, unlock_time, 0).unwrap();
    let new_unlock_ledger = env.ledger.sequence + 500;
    assert_eq!(
        TimeLockVault::migrate_deposit_to_ledger(&mut env, bob, alice, id, new_unlock_ledger),
        Err(VaultError::Unauthorized)
    );
}

#[test]
fn test_migrate_nonexistent_deposit_fails() {
    let (mut env, _token, admin, alice, _fee) = setup();
    let new_unlock_ledger = env.ledger.sequence + 500;
    assert_eq!(
        TimeLockVault::migrate_deposit_to_ledger(&mut env, admin, alice, 0, new_unlock_ledger),
        Err(VaultError::NoDepositFound)
    );
}

#[test]
fn test_migrate_deposit_preserves_amount() {
    let (mut env, token, admin, alice, _fee) = setup();
    let unlock_time = env.ledger.timestamp + 3600;
    let id = TimeLockVault::deposit(&mut env, alice, token, 5_000, unlock_time, 500).unwrap();
    let new_unlock_ledger = env.ledger.sequence + 500;
    TimeLockVault::migrate_deposit_to_ledger(&mut env, admin, alice, id, new_unlock_ledger).unwrap();
    let entry = TimeLockVault::get_vault_by_ledger(&env, alice, id).expect("should exist after migration");
    assert_eq!(entry.amount, 5_000);
    assert_eq!(entry.penalty_bps, 500);
}

// ================================================================
//  Configurable limits
// ================================================================

#[test]
fn test_get_constants_returns_custom_limits() {
    let (env, _token, _admin, _alice) = setup_with_limits(Some(5_000), Some(7200));
    let (max_amount, max_duration) = TimeLockVault::get_constants(&env);
    assert_eq!(max_amount, 5_000);
    assert_eq!(max_duration, 7200);
}

#[test]
fn test_custom_max_deposit_enforced() {
    let (mut env, token, _admin, alice) = setup_with_limits(Some(500), None);
    let unlock_time = env.ledger.timestamp + 3600;
    TimeLockVault::deposit(&mut env, alice, token, 500, unlock_time, 0).unwrap();
    advance_time(&mut env, 3601);
    TimeLockVault::withdraw(&mut env, alice, 0).unwrap();
    let result = TimeLockVault::deposit(&mut env, alice, token, 501, unlock_time, 0);
    assert_eq!(result, Err(VaultError::AmountTooLarge));
}

#[test]
fn test_custom_max_lock_secs_enforced() {
    let (mut env, token, _admin, alice) = setup_with_limits(None, Some(3600));
    let unlock_time = env.ledger.timestamp + 3600;
    TimeLockVault::deposit(&mut env, alice, token, 100, unlock_time, 0).unwrap();
    advance_time(&mut env, 3601);
    TimeLockVault::withdraw(&mut env, alice, 0).unwrap();
    let later = env.ledger.timestamp + 3601;
    let result = TimeLockVault::deposit(&mut env, alice, token, 100, later, 0);
    assert_eq!(result, Err(VaultError::LockDurationTooLong));
}

// ================================================================
//  Entries and boundaries
// ================================================================

#[test]
fn test_vault_entry_has_no_depositor_field() {
    let (mut env, token, _admin, alice, _fee) = setup();
    let unlock_time = env.ledger.timestamp + 3600;
    TimeLockVault::deposit(&mut env, alice, token, 777, unlock_time, 0).unwrap();
    let entry = TimeLockVault::get_vault(&env, alice, 0).expect("entry should exist");
    assert_eq!(entry.token, token);
    assert_eq!(entry.amount, 777);
    assert_eq!(entry.unlock_time, unlock_time);
}

#[test]
fn test_withdraw_before_unlock_does_not_bump_ttl() {
    let (mut env, token, _admin, alice, _fee) = setup();
    let unlock_time = env.ledger.timestamp + 3600;
    TimeLockVault::deposit(&mut env, alice, token, 500, unlock_time, 0).unwrap();
    let result = TimeLockVault::withdraw(&mut env, alice, 0);
    assert_eq!(result, Err(VaultError::FundsStillLocked));
    assert!(TimeLockVault::get_vault(&env, alice, 0).is_some());
}

#[test]
fn test_emergency_withdraw_does_not_bump_ttl_before_remove() {
    let (mut env, token, admin, alice, _fee) = setup();
    let unlock_time = env.ledger.timestamp + 86_400;
    TimeLockVault::deposit(&mut env, alice, token, 1_000, unlock_time, 0).unwrap();
    TimeLockVault::emergency_withdraw(&mut env, admin, alice, 0).unwrap();
    assert!(TimeLockVault::get_vault(&env, alice, 0).is_none());
    assert_eq!(balance(&env, token, alice, 10_000), 10_000);
}

#[test]
fn test_deposit_duplicate_guard_uses_single_read() {
    let (mut env, token, _admin, alice, _fee) = setup();
    let unlock_time = env.ledger.timestamp + 3600;
    TimeLockVault::deposit(&mut env, alice, token, 1_000, unlock_time, 0).unwrap();
    // a second deposit with the same unlock time is a new deposit with the next id
    let result = TimeLockVault::deposit(&mut env, alice, token, 1, unlock_time, 0);
    assert_eq!(result, Ok(1));
    assert_eq!(TimeLockVault::get_vault(&env, alice, 0).unwrap().amount, 1_000);
    assert_eq!(TimeLockVault::get_vault(&env, alice, 1).unwrap().amount, 1);
}

#[test]
fn test_deposit_minimum_unlock_time_succeeds() {
    let (mut env, token, _admin, alice, _fee) = setup();
    // one second ahead is in the future but under the minimum lock duration
    let unlock_time = env.ledger.timestamp + 1;
    let result = TimeLockVault::deposit(&mut env, alice, token, 1, unlock_time, 0);
    assert_eq!(result, Err(VaultError::LockDurationTooShort));
    assert!(TimeLockVault::get_vault(&env, alice, 0).is_none());
    let unlock_time = env.ledger.timestamp + MIN_LOCK_DURATION_SECS;
    assert_eq!(TimeLockVault::deposit(&mut env, alice, token, 1, unlock_time, 0), Ok(0));
}

#[test]
fn test_deposit_minimum_amount_succeeds() {
    let (mut env, token, _admin, alice, _fee) = setup();
    let unlock_time = env.ledger.timestamp + 3600;
    TimeLockVault::deposit(&mut env, alice, token, 1, unlock_time, 0).unwrap();
    let entry = TimeLockVault::get_vault(&env, alice, 0).expect("entry should exist");
    assert_eq!(entry.amount, 1);
}

#[test]
fn test_deposit_max_duration_boundary_succeeds() {
    let (mut env, token, _admin, alice, _fee) = setup();
    let unlock_time = env.ledger.timestamp + MAX_LOCK_DURATION_SECS;
    TimeLockVault::deposit(&mut env, alice, token, 1, unlock_time, 0).unwrap();
    assert!(TimeLockVault::get_vault(&env, alice, 0).is_some());
}

#[test]
fn test_deposit_one_second_over_max_duration_fails() {
    let (mut env, token, _admin, alice, _fee) = setup();
    let unlock_time = env.ledger.timestamp + MAX_LOCK_DURATION_SECS + 1;
    let result = TimeLockVault::deposit(&mut env, alice, token, 1, unlock_time, 0);
    assert_eq!(result, Err(VaultError::LockDurationTooLong));
}

#[test]
fn test_transfers_record_whole_deposit() {
    let (mut env, token, _admin, alice, _fee) = setup();
    let unlock_time = env.ledger.timestamp + 3600;
    TimeLockVault::deposit(&mut env, alice, token, 1_234, unlock_time, 0).unwrap();
    assert_eq!(
        env.transfers,
        vec![Transfer { token, from: alice, to: vault_addr(), amount: 1_234 }]
    );
    let _ = VaultEntry { token, amount: 1, unlock_time: 0, depositor: alice, penalty_bps: 0 };
}
