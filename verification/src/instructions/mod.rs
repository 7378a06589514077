//! The claim instruction and the calls it makes to the token program.
pub mod claim;
pub mod sdk;
