//! Time-locked claims of compressed tokens.
//!
//! A claimant may release tokens held under a program-derived address once
//! the unlock slot bound into that address has been reached. The library
//! decodes the claim request, checks the signers, the token program, the
//! time lock and the derived authority, and assembles the instruction that
//! releases the tokens.
pub mod account;
pub mod address;
pub mod check_pda;
pub mod error;
pub mod instruction;
pub mod instructions;
pub mod processor;
pub mod token;
pub mod wire;

pub use crate::address::id;
