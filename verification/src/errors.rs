//! The program's own errors, in the order that fixes their numeric codes.
use vstd::prelude::*;

verus! {

/// First code of the program's own errors; earlier codes belong to the runtime.
pub const ERROR_CODE_OFFSET: u32 = 6000;

/// Why an instruction of the program was refused.
#[derive(Clone, Copy, Debug, PartialEq, Eq, Structural)]
pub enum AssetraError {
    /// Display name exceeds the maximum allowed length.
    DisplayNameTooLong,
    /// Rights attestation exceeds the maximum allowed length.
    AttestationTooLong,
    /// Title exceeds the maximum allowed length.
    TitleTooLong,
    /// ISRC code exceeds the maximum allowed length.
    IsrcTooLong,
    /// URI exceeds the maximum allowed length.
    UriTooLong,
    /// Declared annual revenue must be greater than zero.
    InvalidDeclaredRevenue,
    /// This track is not in the expected status for this instruction.
    InvalidTrackStatus,
    /// Only the track's creator may perform this action.
    Unauthorized,
    /// Tokenized basis points must be between 1 and 10000 (0.01%-100%).
    InvalidTokenizedBps,
    /// Valuation multiple must be greater than zero.
    InvalidValuationMultiple,
    /// Token supply must be greater than zero.
    InvalidTokenSupply,
    /// Deposit amount must be greater than zero.
    InvalidDepositAmount,
    /// Nothing to claim: no rewards have accrued since the last claim.
    NothingToClaim,
    /// Revenue pool balance is insufficient to cover this claim while staying rent-exempt.
    InsufficientRevenuePoolBalance,
    /// A purchase must be for at least one token and cost at least one lamport.
    InvalidPurchaseAmount,
    /// The vault holds fewer unsold tokens than the purchase asks for.
    InsufficientVaultSupply,
    /// A listing must offer at least one token.
    InvalidListingAmount,
    /// A listing's price per token must be greater than zero.
    InvalidListingPrice,
    /// The seller holds fewer tokens than the listing offers.
    InsufficientListedBalance,
}

/// Position of an error in the declaration order above.
pub open spec fn error_index(e: AssetraError) -> nat {
    match e {
        AssetraError::DisplayNameTooLong => 0,
        AssetraError::AttestationTooLong => 1,
        AssetraError::TitleTooLong => 2,
        AssetraError::IsrcTooLong => 3,
        AssetraError::UriTooLong => 4,
        AssetraError::InvalidDeclaredRevenue => 5,
        AssetraError::InvalidTrackStatus => 6,
        AssetraError::Unauthorized => 7,
        AssetraError::InvalidTokenizedBps => 8,
        AssetraError::InvalidValuationMultiple => 9,
        AssetraError::InvalidTokenSupply => 10,
        AssetraError::InvalidDepositAmount => 11,
        AssetraError::NothingToClaim => 12,
        AssetraError::InsufficientRevenuePoolBalance => 13,
        AssetraError::InvalidPurchaseAmount => 14,
        AssetraError::InsufficientVaultSupply => 15,
        AssetraError::InvalidListingAmount => 16,
        AssetraError::InvalidListingPrice => 17,
        AssetraError::InsufficientListedBalance => 18,
    }
}

impl AssetraError {
    /// The numeric code under which the runtime reports this error:
    /// the offset plus the error's position in the declaration.
    pub fn code(&self) -> (c: u32)
        ensures
            c == ERROR_CODE_OFFSET + error_index(*self),
    {
        let index: u32 = match self {
            AssetraError::DisplayNameTooLong => 0,
            AssetraError::AttestationTooLong => 1,
            AssetraError::TitleTooLong => 2,
            AssetraError::IsrcTooLong => 3,
            AssetraError::UriTooLong => 4,
            AssetraError::InvalidDeclaredRevenue => 5,
            AssetraError::InvalidTrackStatus => 6,
            AssetraError::Unauthorized => 7,
            AssetraError::InvalidTokenizedBps => 8,
            AssetraError::InvalidValuationMultiple => 9,
            AssetraError::InvalidTokenSupply => 10,
            AssetraError::InvalidDepositAmount => 11,
            AssetraError::NothingToClaim => 12,
            AssetraError::InsufficientRevenuePoolBalance => 13,
            AssetraError::InvalidPurchaseAmount => 14,
            AssetraError::InsufficientVaultSupply => 15,
            AssetraError::InvalidListingAmount => 16,
            AssetraError::InvalidListingPrice => 17,
            AssetraError::InsufficientListedBalance => 18,
        };
        ERROR_CODE_OFFSET + index
    }
}

} // verus!
