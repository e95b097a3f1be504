//! Protocol constants.
use vstd::prelude::*;

verus! {

/// Maximum deposit amount in the token's base units (10^15, i.e. one
/// quadrillion in the short scale; 100 000 000 XLM at 7 decimals).
pub const MAX_DEPOSIT_AMOUNT: i128 = 1_000_000_000_000_000;

/// Maximum lock duration in seconds (about 5 years).
pub const MAX_LOCK_DURATION_SECS: u64 = 157_788_000;

/// Minimum lock duration in seconds.
pub const MIN_LOCK_DURATION_SECS: u64 = 60;

/// Maximum number of items handled by one batch call.
pub const MAX_BATCH_SIZE: u32 = 25;

/// Seconds per ledger close.
pub const LEDGER_SECONDS: u64 = 5;

/// Remaining TTL (in ledgers) below which a persistent entry is extended.
pub const BUMP_THRESHOLD: u32 = 518_400;

/// Target TTL (in ledgers): `MAX_LOCK_DURATION_SECS / LEDGER_SECONDS`,
/// rounded up.
pub const BUMP_TARGET: u32 = 31_557_600;

/// Maximum number of addresses returned by one depositor page.
pub const MAX_DEPOSITORS_PAGE_SIZE: u32 = 100;

/// The TTL target is the lock ceiling expressed in ledgers, rounded up, so a
/// deposit locked for the maximum duration cannot expire before it unlocks.
pub proof fn law_bump_target_covers_max_lock()
    ensures
        BUMP_TARGET as int == (MAX_LOCK_DURATION_SECS + LEDGER_SECONDS - 1) / (LEDGER_SECONDS as int),
        BUMP_TARGET as int * LEDGER_SECONDS as int >= MAX_LOCK_DURATION_SECS as int,
        BUMP_THRESHOLD < BUMP_TARGET,
{
}

} // verus!
