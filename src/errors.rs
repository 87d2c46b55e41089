//! The errors of the ledger.
use vstd::prelude::*;

verus! {

/// Every way in which an operation on the ledger can fail.
#[derive(Clone, Copy, Debug, PartialEq, Eq, Structural)]
pub enum RampError {
    /// The operation bytes name no known operation or are malformed.
    InvalidInstruction,
    /// The record has not been initialized.
    UninitializedAccount,
    /// The ledger's native balance cannot cover a withdrawal.
    InsufficientFunds,
    /// The record already holds a ledger.
    AccountAlreadyInitialized,
    /// Storage for the record could not be funded or sized.
    RentOrSpaceError,
    /// The caller did not prove that it signed the request.
    NotSigner,
    /// The caller is not the ledger's owner.
    Unauthorized,
    /// The asset is already listed.
    AssetAlreadyExists,
    /// The asset is not listed.
    AssetNotFound,
    /// A fee percentage lies above the bound.
    InvalidFeePercentage,
    /// The ledger is not active.
    ProgramNotActive,
    /// Every asset slot is taken.
    NoEmptySlot,
    /// The value transfer that the operation needs did not go through.
    TransferFailed,
    /// The encoded record does not fit in its storage.
    OversizeError,
    /// The stored bytes are not a well-formed record.
    CorruptRecordError,
    /// A balance would exceed the largest amount it can hold.
    BalanceOverflow,
}

impl RampError {
    /// The numeric code of the error: its position in the list above.
    pub open spec fn spec_code(self) -> u32 {
        match self {
            RampError::InvalidInstruction => 0,
            RampError::UninitializedAccount => 1,
            RampError::InsufficientFunds => 2,
            RampError::AccountAlreadyInitialized => 3,
            RampError::RentOrSpaceError => 4,
            RampError::NotSigner => 5,
            RampError::Unauthorized => 6,
            RampError::AssetAlreadyExists => 7,
            RampError::AssetNotFound => 8,
            RampError::InvalidFeePercentage => 9,
            RampError::ProgramNotActive => 10,
            RampError::NoEmptySlot => 11,
            RampError::TransferFailed => 12,
            RampError::OversizeError => 13,
            RampError::CorruptRecordError => 14,
            RampError::BalanceOverflow => 15,
        }
    }

    pub fn code(&self) -> (r: u32)
        ensures
            r == self.spec_code(),
    {
        match self {
            RampError::InvalidInstruction => 0,
            RampError::UninitializedAccount => 1,
            RampError::InsufficientFunds => 2,
            RampError::AccountAlreadyInitialized => 3,
            RampError::RentOrSpaceError => 4,
            RampError::NotSigner => 5,
            RampError::Unauthorized => 6,
            RampError::AssetAlreadyExists => 7,
            RampError::AssetNotFound => 8,
            RampError::InvalidFeePercentage => 9,
            RampError::ProgramNotActive => 10,
            RampError::NoEmptySlot => 11,
            RampError::TransferFailed => 12,
            RampError::OversizeError => 13,
            RampError::CorruptRecordError => 14,
            RampError::BalanceOverflow => 15,
        }
    }
}

} // verus!
