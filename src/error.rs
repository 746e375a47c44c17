use vstd::prelude::*;

verus! {

/// Reasons an instruction is rejected. The numeric code of each variant is its
/// position in this list.
#[derive(Debug, Clone, Copy, PartialEq, Eq, Structural)]
pub enum ZerosolError {
    InvalidInstruction,
    AccountNotRegistered,
    AccountAlreadyRegistered,
    InvalidRegistrationSignature,
    TransferAmountOutOfRange,
    NonceAlreadySeen,
    TransferProofVerificationFailed,
    BurnProofVerificationFailed,
    InnerProductProofVerificationFailed,
    SigmaProtocolChallengeFailed,
    InvalidEpoch,
    InsufficientFunds,
    InvalidAccountData,
    InvalidProofStructure,
    RangeProofVerificationFailed,
    ConstraintSystemVerificationFailed,
    BalanceConservationFailed,
    PolynomialEvaluationFailed,
    ArithmeticConstraintFailed,
    InvalidCommitment,
    EpochTransitionError,
    InvalidEncoding,
    DivisionByZero,
    MissingSignature,
}

pub open spec fn error_code_spec(e: ZerosolError) -> u32 {
    match e {
        ZerosolError::InvalidInstruction => 0,
        ZerosolError::AccountNotRegistered => 1,
        ZerosolError::AccountAlreadyRegistered => 2,
        ZerosolError::InvalidRegistrationSignature => 3,
        ZerosolError::TransferAmountOutOfRange => 4,
        ZerosolError::NonceAlreadySeen => 5,
        ZerosolError::TransferProofVerificationFailed => 6,
        ZerosolError::BurnProofVerificationFailed => 7,
        ZerosolError::InnerProductProofVerificationFailed => 8,
        ZerosolError::SigmaProtocolChallengeFailed => 9,
        ZerosolError::InvalidEpoch => 10,
        ZerosolError::InsufficientFunds => 11,
        ZerosolError::InvalidAccountData => 12,
        ZerosolError::InvalidProofStructure => 13,
        ZerosolError::RangeProofVerificationFailed => 14,
        ZerosolError::ConstraintSystemVerificationFailed => 15,
        ZerosolError::BalanceConservationFailed => 16,
        ZerosolError::PolynomialEvaluationFailed => 17,
        ZerosolError::ArithmeticConstraintFailed => 18,
        ZerosolError::InvalidCommitment => 19,
        ZerosolError::EpochTransitionError => 20,
        ZerosolError::InvalidEncoding => 21,
        ZerosolError::DivisionByZero => 22,
        ZerosolError::MissingSignature => 23,
    }
}

impl ZerosolError {
    /// The stable numeric code that the host surfaces as a custom error.
    pub fn code(&self) -> (r: u32)
        ensures
            r == error_code_spec(*self),
    {
        match self {
            ZerosolError::InvalidInstruction => 0,
            ZerosolError::AccountNotRegistered => 1,
            ZerosolError::AccountAlreadyRegistered => 2,
            ZerosolError::InvalidRegistrationSignature => 3,
            ZerosolError::TransferAmountOutOfRange => 4,
            ZerosolError::NonceAlreadySeen => 5,
            ZerosolError::TransferProofVerificationFailed => 6,
            ZerosolError::BurnProofVerificationFailed => 7,
            ZerosolError::InnerProductProofVerificationFailed => 8,
            ZerosolError::SigmaProtocolChallengeFailed => 9,
            ZerosolError::InvalidEpoch => 10,
            ZerosolError::InsufficientFunds => 11,
            ZerosolError::InvalidAccountData => 12,
            ZerosolError::InvalidProofStructure => 13,
            ZerosolError::RangeProofVerificationFailed => 14,
            ZerosolError::ConstraintSystemVerificationFailed => 15,
            ZerosolError::BalanceConservationFailed => 16,
            ZerosolError::PolynomialEvaluationFailed => 17,
            ZerosolError::ArithmeticConstraintFailed => 18,
            ZerosolError::InvalidCommitment => 19,
            ZerosolError::EpochTransitionError => 20,
            ZerosolError::InvalidEncoding => 21,
            ZerosolError::DivisionByZero => 22,
            ZerosolError::MissingSignature => 23,
        }
    }
}

} // verus!
