//! Protocol error codes and the program-level error they convert into.

use vstd::prelude::*;

verus! {

/// Protocol-specific failure reasons. Each maps to a stable custom error code.
#[derive(Clone, Copy, Debug, PartialEq, Eq, Structural)]
pub enum RoshiError {
    InvalidOp,
    InstructionSliceOutOfBounds,
    AccountIndexOutOfBounds,
    InvalidBps,
    VaultPaused,
    UnauthorizedAction,
    InvalidProgramConfigAccount,
    InvalidVaultAccount,
    InvalidActionAccount,
    InvalidWithdrawalTicketAccount,
    InvalidAssetAccount,
    InvalidAccessProof,
    InvalidVaultTag,
    DivisionByZero,
    InvalidDecimals,
    InvalidVaultState,
    Overflow,
    ResultDoesNotFit,
    ZeroOutput,
    SlippageExceeded,
    InvalidTokenAccount,
    InvalidMintAccount,
    ExternalDisabled,
    StaleNavReport,
    ReportTooFrequent,
    NavGainExceedsBound,
    InvalidSubAccount,
    UnpriceableSwapLeg,
}

/// The numeric code of each error, in declaration order.
pub open spec fn error_code(error: RoshiError) -> u32 {
    match error {
        RoshiError::InvalidOp => 0,
        RoshiError::InstructionSliceOutOfBounds => 1,
        RoshiError::AccountIndexOutOfBounds => 2,
        RoshiError::InvalidBps => 3,
        RoshiError::VaultPaused => 4,
        RoshiError::UnauthorizedAction => 5,
        RoshiError::InvalidProgramConfigAccount => 6,
        RoshiError::InvalidVaultAccount => 7,
        RoshiError::InvalidActionAccount => 8,
        RoshiError::InvalidWithdrawalTicketAccount => 9,
        RoshiError::InvalidAssetAccount => 10,
        RoshiError::InvalidAccessProof => 11,
        RoshiError::InvalidVaultTag => 12,
        RoshiError::DivisionByZero => 13,
        RoshiError::InvalidDecimals => 14,
        RoshiError::InvalidVaultState => 15,
        RoshiError::Overflow => 16,
        RoshiError::ResultDoesNotFit => 17,
        RoshiError::ZeroOutput => 18,
        RoshiError::SlippageExceeded => 19,
        RoshiError::InvalidTokenAccount => 20,
        RoshiError::InvalidMintAccount => 21,
        RoshiError::ExternalDisabled => 22,
        RoshiError::StaleNavReport => 23,
        RoshiError::ReportTooFrequent => 24,
        RoshiError::NavGainExceedsBound => 25,
        RoshiError::InvalidSubAccount => 26,
        RoshiError::UnpriceableSwapLeg => 27,
    }
}

impl RoshiError {
    /// The stable custom error code of this error.
    pub fn code(self) -> (code: u32)
        ensures
            code == error_code(self),
    {
        match self {
            RoshiError::InvalidOp => 0,
            RoshiError::InstructionSliceOutOfBounds => 1,
            RoshiError::AccountIndexOutOfBounds => 2,
            RoshiError::InvalidBps => 3,
            RoshiError::VaultPaused => 4,
            RoshiError::UnauthorizedAction => 5,
            RoshiError::InvalidProgramConfigAccount => 6,
            RoshiError::InvalidVaultAccount => 7,
            RoshiError::InvalidActionAccount => 8,
            RoshiError::InvalidWithdrawalTicketAccount => 9,
            RoshiError::InvalidAssetAccount => 10,
            RoshiError::InvalidAccessProof => 11,
            RoshiError::InvalidVaultTag => 12,
            RoshiError::DivisionByZero => 13,
            RoshiError::InvalidDecimals => 14,
            RoshiError::InvalidVaultState => 15,
            RoshiError::Overflow => 16,
            RoshiError::ResultDoesNotFit => 17,
            RoshiError::ZeroOutput => 18,
            RoshiError::SlippageExceeded => 19,
            RoshiError::InvalidTokenAccount => 20,
            RoshiError::InvalidMintAccount => 21,
            RoshiError::ExternalDisabled => 22,
            RoshiError::StaleNavReport => 23,
            RoshiError::ReportTooFrequent => 24,
            RoshiError::NavGainExceedsBound => 25,
            RoshiError::InvalidSubAccount => 26,
            RoshiError::UnpriceableSwapLeg => 27,
        }
    }
}

/// Program-level failure: either a protocol error (by code) or one of the
/// generic runtime failures the account logic reports.
#[derive(Clone, Copy, Debug, PartialEq, Eq, Structural)]
pub enum ProgramError {
    Custom(u32),
    InvalidArgument,
    InvalidInstructionData,
    InvalidAccountData,
    InvalidSeeds,
    NotEnoughAccountKeys,
    MissingRequiredSignature,
    AccountAlreadyInitialized,
    IncorrectProgramId,
    IllegalOwner,
    ArithmeticOverflow,
}

impl From<RoshiError> for ProgramError {
    fn from(error: RoshiError) -> (r: ProgramError) {
        ProgramError::Custom(error.code())
    }
}

impl vstd::std_specs::convert::FromSpecImpl<RoshiError> for ProgramError {
    open spec fn obeys_from_spec() -> bool {
        true
    }

    open spec fn from_spec(error: RoshiError) -> ProgramError {
        ProgramError::Custom(error_code(error))
    }
}

/// The program error a protocol error converts into.
pub open spec fn program_error(error: RoshiError) -> ProgramError {
    ProgramError::Custom(error_code(error))
}

} // verus!
