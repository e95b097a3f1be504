//! Errors returned by the vault.
use vstd::prelude::*;

verus! {

/// Every way a vault call can be refused.
#[derive(Copy, Clone, Debug, PartialEq, Eq, Structural, PartialOrd, Ord)]
pub enum VaultError {
    InvalidAmount,
    UnlockTimeNotInFuture,
    NoDepositFound,
    FundsStillLocked,
    DepositAlreadyExists,
    LockDurationTooLong,
    Unauthorized,
    AmountTooLarge,
    InvalidPenaltyBps,
    LockDurationTooShort,
    InvalidAdmin,
    ContractPaused,
    FundsAlreadyUnlocked,
    BatchTooLarge,
    DepositorFrozen,
    MigrationNotAllowed,
    TokenFrozen,
}

impl VaultError {
    /// The numeric code under which the error is reported to clients.
    pub open spec fn spec_code(&self) -> u32 {
        match self {
            VaultError::InvalidAmount => 1,
            VaultError::UnlockTimeNotInFuture => 2,
            VaultError::NoDepositFound => 3,
            VaultError::FundsStillLocked => 4,
            VaultError::DepositAlreadyExists => 5,
            VaultError::LockDurationTooLong => 6,
            VaultError::Unauthorized => 7,
            VaultError::AmountTooLarge => 8,
            VaultError::InvalidPenaltyBps => 9,
            VaultError::LockDurationTooShort => 10,
            VaultError::InvalidAdmin => 11,
            VaultError::ContractPaused => 12,
            VaultError::FundsAlreadyUnlocked => 13,
            VaultError::BatchTooLarge => 14,
            VaultError::DepositorFrozen => 15,
            VaultError::MigrationNotAllowed => 16,
            VaultError::TokenFrozen => 17,
        }
    }

    /// The numeric code under which the error is reported to clients.
    #[verifier::when_used_as_spec(spec_code)]
    pub fn code(&self) -> (c: u32)
        ensures
            c == self.spec_code(),
    {
        match self {
            VaultError::InvalidAmount => 1,
            VaultError::UnlockTimeNotInFuture => 2,
            VaultError::NoDepositFound => 3,
            VaultError::FundsStillLocked => 4,
            VaultError::DepositAlreadyExists => 5,
            VaultError::LockDurationTooLong => 6,
            VaultError::Unauthorized => 7,
            VaultError::AmountTooLarge => 8,
            VaultError::InvalidPenaltyBps => 9,
            VaultError::LockDurationTooShort => 10,
            VaultError::InvalidAdmin => 11,
            VaultError::ContractPaused => 12,
            VaultError::FundsAlreadyUnlocked => 13,
            VaultError::BatchTooLarge => 14,
            VaultError::DepositorFrozen => 15,
            VaultError::MigrationNotAllowed => 16,
            VaultError::TokenFrozen => 17,
        }
    }

    /// The error with the given numeric code, if there is one.
    pub fn from_code(code: u32) -> (e: Option<VaultError>)
        ensures
            match e {
                Some(err) => err.spec_code() == code,
                None => code == 0 || code > 17,
            },
    {
        match code {
            1 => Some(VaultError::InvalidAmount),
            2 => Some(VaultError::UnlockTimeNotInFuture),
            3 => Some(VaultError::NoDepositFound),
            4 => Some(VaultError::FundsStillLocked),
            5 => Some(VaultError::DepositAlreadyExists),
            6 => Some(VaultError::LockDurationTooLong),
            7 => Some(VaultError::Unauthorized),
            8 => Some(VaultError::AmountTooLarge),
            9 => Some(VaultError::InvalidPenaltyBps),
            10 => Some(VaultError::LockDurationTooShort),
            11 => Some(VaultError::InvalidAdmin),
            12 => Some(VaultError::ContractPaused),
            13 => Some(VaultError::FundsAlreadyUnlocked),
            14 => Some(VaultError::BatchTooLarge),
            15 => Some(VaultError::DepositorFrozen),
            16 => Some(VaultError::MigrationNotAllowed),
            17 => Some(VaultError::TokenFrozen),
            _ => None,
        }
    }
}

} // verus!
