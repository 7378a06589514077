//! The way into the program: from the bytes of a request to its answer.
use vstd::prelude::*;
use crate::account::Account;
use crate::address::Address;
use crate::error::CustomError;
use crate::instruction::{decoded, ClaimProgramInstruction};
use crate::instructions::claim::{answers_claim, process_claim, ForwardRequest};

verus! {

/// Whether `r` is the answer to the given request bytes: malformed bytes
/// are rejected as such, and a request that can be read is answered as a
/// claim.
pub open spec fn answers_request(
    r: Option<Result<ForwardRequest, CustomError>>,
    program_id: Address,
    accounts: Seq<Account>,
    instruction_data: Seq<u8>,
    current_slot: u64,
) -> bool {
    match decoded(instruction_data) {
        Some(request) => answers_claim(
            r,
            program_id,
            accounts,
            request->proof,
            request->root_index,
            request->merkle_context,
            request->amount,
            request->lamports,
            request->mint,
            request->unlock_slot,
            request->bump_seed,
            current_slot,
        ),
        None => r matches Some(Err(e)) && e == CustomError::MalformedRequest,
    }
}

/// Reads the request and handles it at the given slot of the ledger.
///
/// Returns the call to make to the token program, or the reason for which
/// the request is rejected, or `None` where the request passes the checks
/// that come before the authority and its seeds derive no address.
pub fn process_instruction(
    program_id: &Address,
    accounts: &[Account],
    instruction_data: &[u8],
    current_slot: u64,
) -> (r: Option<Result<ForwardRequest, CustomError>>)
    ensures
        answers_request(r, *program_id, accounts@, instruction_data@, current_slot),
{
    let instruction = match ClaimProgramInstruction::try_from_slice(instruction_data) {
        Ok(instruction) => instruction,
        Err(e) => {
            return Some(Err(e));
        },
    };
    match instruction {
        ClaimProgramInstruction::ClaimAndDecompress {
            proof: validity_proof,
            root_index,
            merkle_context,
            amount,
            lamports,
            mint,
            unlock_slot,
            bump_seed,
        } => process_claim(
            program_id,
            accounts,
            validity_proof,
            root_index,
            merkle_context,
            amount,
            lamports,
            mint,
            unlock_slot,
            bump_seed,
            current_slot,
        ),
    }
}

} // verus!
