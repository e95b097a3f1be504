//! Values stored and returned by the vault.
use vstd::prelude::*;

verus! {

/// An account or contract on the ledger, identified by a 64-bit handle.
#[derive(Copy, Clone, Debug, PartialEq, Eq, Structural, Hash)]
pub struct Address {
    pub id: u64,
}

impl Address {
    pub fn new(id: u64) -> (a: Address)
        ensures
            a.id == id,
    {
        Address { id }
    }
}

/// A deposit locked until a ledger timestamp (Unix seconds).
#[derive(Copy, Clone, Debug, PartialEq, Eq, Structural)]
pub struct VaultEntry {
    pub token: Address,
    pub amount: i128,
    pub unlock_time: u64,
    pub depositor: Address,
    pub penalty_bps: u32,
}

/// A deposit locked until a ledger sequence number.
#[derive(Copy, Clone, Debug, PartialEq, Eq, Structural)]
pub struct LedgerVaultEntry {
    pub token: Address,
    pub amount: i128,
    pub unlock_ledger: u32,
    pub depositor: Address,
    pub penalty_bps: u32,
}

/// The outcome of one item of a batch withdrawal.
#[derive(Copy, Clone, Debug, PartialEq, Eq, Structural)]
pub struct WithdrawResult {
    pub depositor: Address,
    pub deposit_id: u32,
    pub success: bool,
    pub amount: i128,
    pub token: Address,
}

/// One active deposit, as listed by `get_all_vaults`.
#[derive(Copy, Clone, Debug, PartialEq, Eq, Structural)]
pub struct VaultInfo {
    pub depositor: Address,
    pub deposit_id: u32,
    pub entry: VaultEntry,
}

/// A summary of the vault's operational state.
#[derive(Copy, Clone, Debug, PartialEq, Eq, Structural)]
pub struct VaultStatus {
    pub has_admin: bool,
    pub admin: Option<Address>,
    pub paused: bool,
    pub depositor_count: u32,
}

/// The ledger the vault runs on: close time (Unix seconds) and sequence number.
#[derive(Copy, Clone, Debug, PartialEq, Eq, Structural)]
pub struct Ledger {
    pub timestamp: u64,
    pub sequence: u32,
}

/// The kind of one thing the vault asks of the host, in the order it asks:
/// an authorization, a storage write, a token transfer or an event.
#[derive(Copy, Clone, Debug, PartialEq, Eq, Structural)]
pub enum Step {
    Auth,
    Write,
    Transfer,
    Event,
}

/// A token transfer the vault asked the token contract to make.
#[derive(Copy, Clone, Debug, PartialEq, Eq, Structural)]
pub struct Transfer {
    pub token: Address,
    pub from: Address,
    pub to: Address,
    pub amount: i128,
}

/// An event published by the vault.
#[derive(Copy, Clone, Debug, PartialEq, Eq, Structural)]
pub enum Event {
    Deposit { depositor: Address, token: Address, deposit_id: u32, amount: i128, unlock_at: u64 },
    Withdraw { depositor: Address, token: Address, deposit_id: u32, amount: i128 },
    WithdrawTo {
        depositor: Address,
        recipient: Address,
        token: Address,
        deposit_id: u32,
        amount: i128,
    },
    EmergencyWithdraw {
        admin: Address,
        depositor: Address,
        token: Address,
        deposit_id: u32,
        amount: i128,
    },
    DepositCancelled { depositor: Address, token: Address, amount: i128, penalty: i128 },
    TopUp { depositor: Address, deposit_id: u32, token: Address, amount: i128, new_total: i128 },
    AdminTransferInitiated { current_admin: Address, pending_admin: Address },
    AdminTransferCancelled { current_admin: Address, pending_admin: Address },
    AdminTransferAccepted { new_admin: Address },
    AdminRenounced { former_admin: Address },
    Paused { admin: Address },
    Unpaused { admin: Address },
    LockExtended { depositor: Address, old_unlock_time: u64, new_unlock_time: u64 },
    Frozen { admin: Address, depositor: Address },
    Unfrozen { admin: Address, depositor: Address },
    Migrated { depositor: Address, deposit_id: u32, to_ledger: bool, to_time: bool },
    BatchWithdraw { depositor: Address, count: u32 },
}

} // verus!
