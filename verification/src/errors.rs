//! Error taxonomy shared by the on-chain record and the off-chain relayer.

use vstd::prelude::*;
use vstd::string::StringExecFns;

verus! {

/// Errors of the venue-D funding math; `MathError` covers overflow and
/// division by zero in the checked arithmetic layer.
#[derive(Clone, Copy, PartialEq, Eq, Structural, Debug)]
pub enum DriftError {
    MathError,
    InvalidOracle,
    InvalidMarkTwapUpdateDetected,
    InvalidFundingProfitability,
}

impl DriftError {
    /// Human-readable name of the error.
    pub fn to_string(&self) -> (r: String)
        ensures
            r@ == self.name_spec(),
    {
        match self {
            Self::MathError => String::from_str("MathError"),
            Self::InvalidOracle => String::from_str("InvalidOracle"),
            Self::InvalidMarkTwapUpdateDetected => String::from_str("InvalidMarkTwapUpdateDetected"),
            Self::InvalidFundingProfitability => String::from_str("InvalidFundingProfitability"),
        }
    }

    pub open spec fn name_spec(&self) -> Seq<char> {
        match self {
            Self::MathError => "MathError"@,
            Self::InvalidOracle => "InvalidOracle"@,
            Self::InvalidMarkTwapUpdateDetected => "InvalidMarkTwapUpdateDetected"@,
            Self::InvalidFundingProfitability => "InvalidFundingProfitability"@,
        }
    }
}

pub type DriftResult<T> = Result<T, DriftError>;

/// Domain error codes of the funding program, in the order of their
/// dense `u32` encoding.
#[derive(Clone, Copy, PartialEq, Eq, Structural, Debug)]
pub enum ErrorCode {
    AccountsNeedToBeWritable,
    InvalidAccount,
    MissingOrInvalidAuthority,
    CouldNotSerializeAccount,
    MarketStateAlreadyExists,
    MarketStateDoesNotExist,
    UpdateTooSoon,
    LamportsOverflow,
}

impl ErrorCode {
    /// The dense `u32` code used when the error crosses the program
    /// boundary as a custom error.
    pub fn code(&self) -> (r: u32)
        ensures
            r == self.code_spec(),
    {
        match self {
            Self::AccountsNeedToBeWritable => 0,
            Self::InvalidAccount => 1,
            Self::MissingOrInvalidAuthority => 2,
            Self::CouldNotSerializeAccount => 3,
            Self::MarketStateAlreadyExists => 4,
            Self::MarketStateDoesNotExist => 5,
            Self::UpdateTooSoon => 6,
            Self::LamportsOverflow => 7,
        }
    }

    pub open spec fn code_spec(&self) -> u32 {
        match self {
            Self::AccountsNeedToBeWritable => 0u32,
            Self::InvalidAccount => 1u32,
            Self::MissingOrInvalidAuthority => 2u32,
            Self::CouldNotSerializeAccount => 3u32,
            Self::MarketStateAlreadyExists => 4u32,
            Self::MarketStateDoesNotExist => 5u32,
            Self::UpdateTooSoon => 6u32,
            Self::LamportsOverflow => 7u32,
        }
    }
}

/// Runtime-level program failures that are not domain errors of the
/// funding record itself.
#[derive(Clone, Copy, PartialEq, Eq, Structural, Debug)]
pub enum ProgramFault {
    InvalidInstructionData,
    InvalidAccountData,
    AccountDataTooSmall,
}

/// Any failure of a funding-program operation: a domain error with a
/// dense code, or a runtime fault.
#[derive(Clone, Copy, PartialEq, Eq, Structural, Debug)]
pub enum FundingError {
    Funding(ErrorCode),
    Program(ProgramFault),
}

pub type FundingResult<T> = Result<T, FundingError>;

} // verus!
