//! The conditions under which a claim is rejected.
use vstd::prelude::*;
use crate::address::Address;

verus! {

/// One of the two parties that must sign a claim.
#[derive(Clone, Copy, Debug, PartialEq, Eq, Structural)]
pub enum Party {
    Claimant,
    FeePayer,
}

/// Why a claim was rejected.
#[derive(Clone, Copy, Debug, PartialEq, Eq)]
pub enum CustomError {
    /// A required party did not sign the call.
    MissingSignature { who: Party },
    /// The request bytes are not a well-formed claim request.
    MalformedRequest,
    /// The ledger has not reached the unlock slot yet.
    LockedUntil { unlock_time: u64 },
    /// The authorizing account is not the address derived for this claim.
    InvalidAuthority { expected: Address, found: Address },
    /// The account presented as the token program is another program.
    UnexpectedExternalProgram { expected: Address, found: Address },
    /// The account list is shorter than the request needs.
    InsufficientAccounts { needed: usize, available: usize },
    /// The token program rejected the forwarded call.
    ForwardingFailed { underlying: u64 },
}

impl CustomError {
    /// The stable number under which each condition is reported.
    pub open spec fn spec_code(self) -> u32 {
        match self {
            CustomError::MissingSignature { .. } => 0,
            CustomError::MalformedRequest => 1,
            CustomError::LockedUntil { .. } => 2,
            CustomError::InvalidAuthority { .. } => 3,
            CustomError::UnexpectedExternalProgram { .. } => 4,
            CustomError::InsufficientAccounts { .. } => 5,
            CustomError::ForwardingFailed { .. } => 6,
        }
    }

    /// The stable number under which this condition is reported.
    pub fn code(&self) -> (r: u32)
        ensures
            r == self.spec_code(),
    {
        match self {
            CustomError::MissingSignature { .. } => 0,
            CustomError::MalformedRequest => 1,
            CustomError::LockedUntil { .. } => 2,
            CustomError::InvalidAuthority { .. } => 3,
            CustomError::UnexpectedExternalProgram { .. } => 4,
            CustomError::InsufficientAccounts { .. } => 5,
            CustomError::ForwardingFailed { .. } => 6,
        }
    }

    /// What each condition is called in words.
    pub open spec fn spec_message(self) -> Seq<char> {
        match self {
            CustomError::MissingSignature { .. } => "Missing required signature."@,
            CustomError::MalformedRequest => "Invalid instruction data."@,
            CustomError::LockedUntil { .. } => "Tokens are still locked."@,
            CustomError::InvalidAuthority { .. } => "Invalid airdrop PDA provided."@,
            CustomError::UnexpectedExternalProgram { .. } => "Invalid compressed token program."@,
            CustomError::InsufficientAccounts { .. } => "Account index out of bounds."@,
            CustomError::ForwardingFailed { .. } => "Compressed token program failed."@,
        }
    }

    /// What this condition is called in words.
    pub fn message(&self) -> (r: &'static str)
        ensures
            r@ == self.spec_message(),
    {
        match self {
            CustomError::MissingSignature { .. } => "Missing required signature.",
            CustomError::MalformedRequest => "Invalid instruction data.",
            CustomError::LockedUntil { .. } => "Tokens are still locked.",
            CustomError::InvalidAuthority { .. } => "Invalid airdrop PDA provided.",
            CustomError::UnexpectedExternalProgram { .. } => "Invalid compressed token program.",
            CustomError::InsufficientAccounts { .. } => "Account index out of bounds.",
            CustomError::ForwardingFailed { .. } => "Compressed token program failed.",
        }
    }
}

} // verus!
