//! A time-lock vault: tokens are locked until a future timestamp or ledger
//! sequence number, with early cancellation against a penalty, admin
//! emergency recovery, pausing and freezing.
//!
//! The contract runs against [`Env`], a model of the host environment that
//! holds the vault's persistent storage as plain values, the current ledger
//! (timestamp and sequence), and the ordered record of what the vault asked
//! the host to do: authorizations, token transfers and events.

pub mod constants;
pub mod contract;
pub mod env;
pub mod errors;
pub mod laws;
pub mod limits;
pub mod events;
pub mod model;
pub mod rules;
pub mod storage;
pub mod types;

pub use constants::{
    BUMP_TARGET, BUMP_THRESHOLD, LEDGER_SECONDS, MAX_BATCH_SIZE, MAX_DEPOSITORS_PAGE_SIZE,
    MAX_DEPOSIT_AMOUNT, MAX_LOCK_DURATION_SECS, MIN_LOCK_DURATION_SECS,
};
pub use contract::TimeLockVault;
pub use env::Env;
pub use errors::VaultError;
pub use types::{
    Address, Event, Ledger, LedgerVaultEntry, Step, Transfer, VaultEntry, VaultInfo, VaultStatus, WithdrawResult,
};
