//! Event publication helpers: one per kind of event the vault emits.
use vstd::prelude::*;

use crate::env::Env;
use crate::types::{Address, Event};

verus! {

pub fn deposit(env: &mut Env, depositor: &Address, token: &Address, deposit_id: u32, amount: i128, unlock_at: u64)
    ensures
        final(env)@ == old(env)@.emit(
            Event::Deposit { depositor: *depositor, token: *token, deposit_id, amount, unlock_at },
        ),
        final(env).storage == old(env).storage,
{
    env.publish(Event::Deposit { depositor: *depositor, token: *token, deposit_id, amount, unlock_at });
}

pub fn withdraw(env: &mut Env, depositor: &Address, token: &Address, deposit_id: u32, amount: i128)
    ensures
        final(env)@ == old(env)@.emit(
            Event::Withdraw { depositor: *depositor, token: *token, deposit_id, amount },
        ),
        final(env).storage == old(env).storage,
{
    env.publish(Event::Withdraw { depositor: *depositor, token: *token, deposit_id, amount });
}

pub fn withdraw_to(
    env: &mut Env,
    depositor: &Address,
    recipient: &Address,
    token: &Address,
    deposit_id: u32,
    amount: i128,
)
    ensures
        final(env)@ == old(env)@.emit(
            Event::WithdrawTo {
                depositor: *depositor,
                recipient: *recipient,
                token: *token,
                deposit_id,
                amount,
            },
        ),
        final(env).storage == old(env).storage,
{
    env.publish(
        Event::WithdrawTo {
            depositor: *depositor,
            recipient: *recipient,
            token: *token,
            deposit_id,
            amount,
        },
    );
}

pub fn emergency_withdraw(
    env: &mut Env,
    admin: &Address,
    depositor: &Address,
    token: &Address,
    deposit_id: u32,
    amount: i128,
)
    ensures
        final(env)@ == old(env)@.emit(
            Event::EmergencyWithdraw {
                admin: *admin,
                depositor: *depositor,
                token: *token,
                deposit_id,
                amount,
            },
        ),
        final(env).storage == old(env).storage,
{
    env.publish(
        Event::EmergencyWithdraw {
            admin: *admin,
            depositor: *depositor,
            token: *token,
            deposit_id,
            amount,
        },
    );
}

pub fn deposit_cancelled(env: &mut Env, depositor: &Address, token: &Address, amount: i128, penalty: i128)
    ensures
        final(env)@ == old(env)@.emit(
            Event::DepositCancelled { depositor: *depositor, token: *token, amount, penalty },
        ),
        final(env).storage == old(env).storage,
{
    env.publish(Event::DepositCancelled { depositor: *depositor, token: *token, amount, penalty });
}

pub fn top_up(env: &mut Env, depositor: &Address, deposit_id: u32, token: &Address, amount: i128, new_total: i128)
    ensures
        final(env)@ == old(env)@.emit(
            Event::TopUp { depositor: *depositor, deposit_id, token: *token, amount, new_total },
        ),
        final(env).storage == old(env).storage,
{
    env.publish(Event::TopUp { depositor: *depositor, deposit_id, token: *token, amount, new_total });
}

pub fn admin_transfer_initiated(env: &mut Env, current_admin: &Address, pending_admin: &Address)
    ensures
        final(env)@ == old(env)@.emit(
            Event::AdminTransferInitiated {
                current_admin: *current_admin,
                pending_admin: *pending_admin,
            },
        ),
        final(env).storage == old(env).storage,
{
    env.publish(
        Event::AdminTransferInitiated { current_admin: *current_admin, pending_admin: *pending_admin },
    );
}

pub fn admin_transfer_cancelled(env: &mut Env, current_admin: &Address, pending_admin: &Address)
    ensures
        final(env)@ == old(env)@.emit(
            Event::AdminTransferCancelled {
                current_admin: *current_admin,
                pending_admin: *pending_admin,
            },
        ),
        final(env).storage == old(env).storage,
{
    env.publish(
        Event::AdminTransferCancelled { current_admin: *current_admin, pending_admin: *pending_admin },
    );
}

pub fn admin_transfer_accepted(env: &mut Env, new_admin: &Address)
    ensures
        final(env)@ == old(env)@.emit(Event::AdminTransferAccepted { new_admin: *new_admin }),
        final(env).storage == old(env).storage,
{
    env.publish(Event::AdminTransferAccepted { new_admin: *new_admin });
}

pub fn admin_renounced(env: &mut Env, former_admin: &Address)
    ensures
        final(env)@ == old(env)@.emit(Event::AdminRenounced { former_admin: *former_admin }),
        final(env).storage == old(env).storage,
{
    env.publish(Event::AdminRenounced { former_admin: *former_admin });
}

pub fn paused(env: &mut Env, admin: &Address)
    ensures
        final(env)@ == old(env)@.emit(Event::Paused { admin: *admin }),
        final(env).storage == old(env).storage,
{
    env.publish(Event::Paused { admin: *admin });
}

pub fn unpaused(env: &mut Env, admin: &Address)
    ensures
        final(env)@ == old(env)@.emit(Event::Unpaused { admin: *admin }),
        final(env).storage == old(env).storage,
{
    env.publish(Event::Unpaused { admin: *admin });
}

pub fn lock_extended(env: &mut Env, depositor: &Address, old_unlock_time: u64, new_unlock_time: u64)
    ensures
        final(env)@ == old(env)@.emit(
            Event::LockExtended { depositor: *depositor, old_unlock_time, new_unlock_time },
        ),
        final(env).storage == old(env).storage,
{
    env.publish(Event::LockExtended { depositor: *depositor, old_unlock_time, new_unlock_time });
}

pub fn frozen(env: &mut Env, admin: &Address, depositor: &Address)
    ensures
        final(env)@ == old(env)@.emit(Event::Frozen { admin: *admin, depositor: *depositor }),
        final(env).storage == old(env).storage,
{
    env.publish(Event::Frozen { admin: *admin, depositor: *depositor });
}

pub fn unfrozen(env: &mut Env, admin: &Address, depositor: &Address)
    ensures
        final(env)@ == old(env)@.emit(Event::Unfrozen { admin: *admin, depositor: *depositor }),
        final(env).storage == old(env).storage,
{
    env.publish(Event::Unfrozen { admin: *admin, depositor: *depositor });
}

pub fn migrated(env: &mut Env, depositor: &Address, deposit_id: u32, to_ledger: bool, to_time: bool)
    ensures
        final(env)@ == old(env)@.emit(
            Event::Migrated { depositor: *depositor, deposit_id, to_ledger, to_time },
        ),
        final(env).storage == old(env).storage,
{
    env.publish(Event::Migrated { depositor: *depositor, deposit_id, to_ledger, to_time });
}

pub fn batch_withdraw(env: &mut Env, depositor: &Address, count: u32)
    ensures
        final(env)@ == old(env)@.emit(Event::BatchWithdraw { depositor: *depositor, count }),
        final(env).storage == old(env).storage,
{
    env.publish(Event::BatchWithdraw { depositor: *depositor, count });
}

} // verus!
