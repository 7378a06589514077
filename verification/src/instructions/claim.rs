//! The claim: the checks that a request must pass, in the order in which
//! they are made, and the call to the token program that a request which
//! passes them is turned into.
use vstd::prelude::*;
use crate::account::{Account, Instruction};
use crate::address::{ctoken_program_id, lemma_address_eq, Address, CTOKEN_PROGRAM_ID};
use crate::check_pda::{authority_verdict, borrow_seeds, try_check_claim_pda, ClaimSeeds};
use crate::error::{CustomError, Party};
use crate::instructions::sdk::accounts::{
    accounts_needed, get_decompress_cpi_accounts, reported_need, tail_positions, ToAccountInfos,
};
use crate::instructions::sdk::decompress::{
    decompress, decompress_instruction_data, decompress_metas, lemma_totals_single,
};
use crate::token::{all_writable, CompressedProof, InputTokenDataWithContext, PackedMerkleContext};

verus! {

/// Where the accounts of the call to the token program begin in the
/// accounts of a claim: behind the claimant.
pub const CPI_ACCOUNTS_START: usize = 1;

/// How many accounts a claim lists before its tree and queue accounts: the
/// claimant and the fixed accounts of the call to the token program.
pub const CLAIM_HEAD_ACCOUNTS: usize = 14;

/// The call that a claim is turned into: the instruction for the token
/// program, the accounts that go with it, and the seeds by which this
/// program signs for the authority.
#[derive(Clone, Debug, PartialEq, Eq)]
pub struct ForwardRequest {
    pub instruction: Instruction,
    pub account_infos: Vec<Account>,
    pub signer_seeds: Vec<Vec<u8>>,
}

/// Both the claimant and the fee payer must have signed; of two missing
/// signatures the claimant's is reported.
pub open spec fn signer_verdict(claimant: Account, fee_payer: Account) -> Result<(), CustomError> {
    if !claimant.is_signer {
        Err(CustomError::MissingSignature { who: Party::Claimant })
    } else if !fee_payer.is_signer {
        Err(CustomError::MissingSignature { who: Party::FeePayer })
    } else {
        Ok(())
    }
}

/// Checks that the claimant and the fee payer have signed the call.
pub fn check_signers(claimant: &Account, fee_payer: &Account) -> (r: Result<(), CustomError>)
    ensures
        r == signer_verdict(*claimant, *fee_payer),
        r is Ok <==> claimant.is_signer && fee_payer.is_signer,
{
    if !claimant.is_signer {
        return Err(CustomError::MissingSignature { who: Party::Claimant });
    }
    if !fee_payer.is_signer {
        return Err(CustomError::MissingSignature { who: Party::FeePayer });
    }
    Ok(())
}

/// The account presented as the token program must be the program that is
/// expected.
pub open spec fn token_program_verdict(expected: Address, found: Address) -> Result<
    (),
    CustomError,
> {
    if expected@ == found@ {
        Ok(())
    } else {
        Err(CustomError::UnexpectedExternalProgram { expected, found })
    }
}

/// Checks that the account presented as the token program is the expected
/// program.
pub fn check_token_program(expected: &Address, found: &Address) -> (r: Result<(), CustomError>)
    ensures
        r == token_program_verdict(*expected, *found),
{
    if *found != *expected {
        return Err(CustomError::UnexpectedExternalProgram { expected: *expected, found: *found });
    }
    Ok(())
}

/// A claim may be made from its unlock slot on.
pub open spec fn time_lock_verdict(current_slot: u64, unlock_slot: u64) -> Result<(), CustomError> {
    if current_slot < unlock_slot {
        Err(CustomError::LockedUntil { unlock_time: unlock_slot })
    } else {
        Ok(())
    }
}

/// Checks that the ledger has reached the unlock slot.
pub fn check_time_lock(current_slot: u64, unlock_slot: u64) -> (r: Result<(), CustomError>)
    ensures
        r == time_lock_verdict(current_slot, unlock_slot),
        r is Ok <==> current_slot >= unlock_slot,
{
    if current_slot < unlock_slot {
        return Err(CustomError::LockedUntil { unlock_time: unlock_slot });
    }
    Ok(())
}

/// A claim made at the unlock slot itself passes, and one made a slot
/// earlier does not.
pub proof fn lemma_time_lock_boundary(unlock_slot: u64)
    ensures
        time_lock_verdict(unlock_slot, unlock_slot) is Ok,
        unlock_slot > 0 ==> time_lock_verdict((unlock_slot - 1) as u64, unlock_slot) == Err::<
            (),
            CustomError,
        >(CustomError::LockedUntil { unlock_time: unlock_slot }),
        forall|current_slot: u64|
            current_slot >= unlock_slot ==> #[trigger] time_lock_verdict(current_slot, unlock_slot)
                is Ok,
        forall|current_slot: u64|
            current_slot < unlock_slot ==> #[trigger] time_lock_verdict(current_slot, unlock_slot)
                is Err,
{
}

/// A missing signature of the claimant, of the fee payer or of both is
/// reported as a missing signature, and nothing else is.
pub proof fn lemma_missing_signature(claimant: Account, fee_payer: Account)
    ensures
        !claimant.is_signer ==> signer_verdict(claimant, fee_payer) == Err::<(), CustomError>(
            CustomError::MissingSignature { who: Party::Claimant },
        ),
        claimant.is_signer && !fee_payer.is_signer ==> signer_verdict(claimant, fee_payer) == Err::<
            (),
            CustomError,
        >(CustomError::MissingSignature { who: Party::FeePayer }),
        claimant.is_signer && fee_payer.is_signer <==> signer_verdict(claimant, fee_payer) is Ok,
{
}

/// The compressed token account that a claim spends.
pub open spec fn claimed_account(
    merkle_context: PackedMerkleContext,
    root_index: u16,
    amount: u64,
    lamports: Option<u64>,
) -> InputTokenDataWithContext {
    InputTokenDataWithContext {
        amount,
        delegate_index: None,
        merkle_context,
        root_index,
        lamports,
        tlv: None,
    }
}

/// Describes the compressed token account at the given place that holds the
/// given amount: one without delegate and without extension data.
pub fn get_compressed_token_account_info(
    merkle_context: PackedMerkleContext,
    root_index: u16,
    amount: u64,
    lamports: Option<u64>,
) -> (r: InputTokenDataWithContext)
    ensures
        r == claimed_account(merkle_context, root_index, amount, lamports),
{
    InputTokenDataWithContext {
        amount,
        delegate_index: None,
        merkle_context,
        root_index,
        lamports,
        tlv: None,
    }
}

/// The seeds of the claim that the given accounts and request make.
pub open spec fn seeds_of_claim(
    accounts: Seq<Account>,
    mint: Address,
    unlock_slot: u64,
    bump_seed: u8,
) -> ClaimSeeds {
    ClaimSeeds { claimant: accounts[0].key, mint, unlock_slot, bump_seed }
}

/// What is found before the address of the claim is derived: the first
/// failure among too few accounts for the fixed places, a missing
/// signature, a wrong token program and a claim made too early.
pub open spec fn early_verdict(accounts: Seq<Account>, unlock_slot: u64, current_slot: u64) -> Result<
    (),
    CustomError,
> {
    if accounts.len() < CLAIM_HEAD_ACCOUNTS {
        Err(
            CustomError::InsufficientAccounts {
                needed: CLAIM_HEAD_ACCOUNTS,
                available: accounts.len() as usize,
            },
        )
    } else if signer_verdict(accounts[0], accounts[1]) is Err {
        signer_verdict(accounts[0], accounts[1])
    } else if token_program_verdict(Address { bytes: CTOKEN_PROGRAM_ID }, accounts[9].key) is Err {
        token_program_verdict(Address { bytes: CTOKEN_PROGRAM_ID }, accounts[9].key)
    } else {
        time_lock_verdict(current_slot, unlock_slot)
    }
}

/// What is found once the address of the claim has been derived: a wrong
/// authority, or else too few accounts for the tree and the queue.
pub open spec fn late_verdict(
    expected: Address,
    accounts: Seq<Account>,
    merkle_context: PackedMerkleContext,
) -> Result<(), CustomError> {
    if authority_verdict(expected, accounts[2].key) is Err {
        authority_verdict(expected, accounts[2].key)
    } else if accounts_needed(CPI_ACCOUNTS_START as int, seq![merkle_context]) > accounts.len() {
        Err(
            CustomError::InsufficientAccounts {
                needed: reported_need(CPI_ACCOUNTS_START as int, seq![merkle_context]),
                available: accounts.len() as usize,
            },
        )
    } else {
        Ok(())
    }
}

/// Whether a claim is let through: the first failure in the order of the
/// checks, or none. There is no answer where the request passes the early
/// checks and its seeds derive no address.
pub open spec fn claim_verdict(
    program_id: Address,
    accounts: Seq<Account>,
    merkle_context: PackedMerkleContext,
    mint: Address,
    unlock_slot: u64,
    bump_seed: u8,
    current_slot: u64,
) -> Option<Result<(), CustomError>> {
    if early_verdict(accounts, unlock_slot, current_slot) is Err {
        Some(early_verdict(accounts, unlock_slot, current_slot))
    } else {
        match seeds_of_claim(accounts, mint, unlock_slot, bump_seed).address(program_id) {
            Some(expected) => Some(late_verdict(expected, accounts, merkle_context)),
            None => None,
        }
    }
}

/// A request that passes the checks which come before the authority, and
/// presents as the authority another account than the one derived for the
/// claim, is rejected for its authority.
pub proof fn lemma_wrong_authority_rejected(
    program_id: Address,
    accounts: Seq<Account>,
    merkle_context: PackedMerkleContext,
    mint: Address,
    unlock_slot: u64,
    bump_seed: u8,
    current_slot: u64,
    expected: Address,
)
    requires
        early_verdict(accounts, unlock_slot, current_slot) is Ok,
        seeds_of_claim(accounts, mint, unlock_slot, bump_seed).address(program_id) == Some(
            expected,
        ),
        accounts[2].key != expected,
    ensures
        claim_verdict(
            program_id,
            accounts,
            merkle_context,
            mint,
            unlock_slot,
            bump_seed,
            current_slot,
        ) == Some(
            Err::<(), CustomError>(
                CustomError::InvalidAuthority { expected, found: accounts[2].key },
            ),
        ),
{
    lemma_address_eq(expected, accounts[2].key);
}

/// A request is let through exactly when it passes every check: the fixed
/// accounts are there, both parties have signed, the token program is the
/// expected one, the unlock slot has been reached, the authority is the
/// derived address, and the tree and the queue are there.
pub proof fn lemma_claim_passes(
    program_id: Address,
    accounts: Seq<Account>,
    merkle_context: PackedMerkleContext,
    mint: Address,
    unlock_slot: u64,
    bump_seed: u8,
    current_slot: u64,
)
    ensures
        claim_verdict(
            program_id,
            accounts,
            merkle_context,
            mint,
            unlock_slot,
            bump_seed,
            current_slot,
        ) == Some(Ok::<(), CustomError>(())) <==> {
            &&& accounts.len() >= CLAIM_HEAD_ACCOUNTS
            &&& accounts[0].is_signer
            &&& accounts[1].is_signer
            &&& accounts[9].key.bytes == CTOKEN_PROGRAM_ID
            &&& current_slot >= unlock_slot
            &&& seeds_of_claim(accounts, mint, unlock_slot, bump_seed).address(program_id) == Some(
                accounts[2].key,
            )
            &&& accounts_needed(CPI_ACCOUNTS_START as int, seq![merkle_context]) <= accounts.len()
        },
{
    lemma_address_eq(Address { bytes: CTOKEN_PROGRAM_ID }, accounts[9].key);
    if let Some(expected) = seeds_of_claim(accounts, mint, unlock_slot, bump_seed).address(
        program_id,
    ) {
        lemma_address_eq(expected, accounts[2].key);
    }
}

/// The accounts that go with the call to the token program: the thirteen
/// behind the claimant, then the tree and the queue that the merkle context
/// names, the queue only if it is another account than the tree.
pub open spec fn forwarded_accounts(
    accounts: Seq<Account>,
    merkle_context: PackedMerkleContext,
) -> Seq<Account> {
    accounts.subrange(CPI_ACCOUNTS_START as int, CLAIM_HEAD_ACCOUNTS as int) + tail_positions(
        CPI_ACCOUNTS_START as int,
        seq![merkle_context],
    ).map_values(|p: int| accounts[p])
}

/// Whether the call is the one that releases the claimed tokens: it goes to
/// the token program, lists the forwarded accounts, decompresses all that
/// the claimed account holds to the claimant, and is signed with the seeds
/// of the claim.
pub open spec fn forwards_claim(
    call: ForwardRequest,
    accounts: Seq<Account>,
    validity_proof: Option<CompressedProof>,
    root_index: u16,
    merkle_context: PackedMerkleContext,
    amount: u64,
    lamports: Option<u64>,
    mint: Address,
    unlock_slot: u64,
    bump_seed: u8,
) -> bool {
    &&& call.instruction.program_id == accounts[9].key
    &&& call.instruction.accounts@ == decompress_metas(forwarded_accounts(accounts, merkle_context))
    &&& call.instruction.data@ == decompress_instruction_data(
        mint,
        validity_proof,
        accounts[0].key,
        seq![claimed_account(merkle_context, root_index, amount, lamports)],
        None,
        None,
        None,
    )
    &&& call.account_infos@ == forwarded_accounts(accounts, merkle_context)
    &&& call.signer_seeds.deep_view() == seeds_of_claim(
        accounts,
        mint,
        unlock_slot,
        bump_seed,
    ).seeds()
}

/// Whether `r` is the answer to a claim: the first failure in the order of
/// the checks, or the call that releases the tokens, or nothing where the
/// seeds derive no address.
pub open spec fn answers_claim(
    r: Option<Result<ForwardRequest, CustomError>>,
    program_id: Address,
    accounts: Seq<Account>,
    validity_proof: Option<CompressedProof>,
    root_index: u16,
    merkle_context: PackedMerkleContext,
    amount: u64,
    lamports: Option<u64>,
    mint: Address,
    unlock_slot: u64,
    bump_seed: u8,
    current_slot: u64,
) -> bool {
    let verdict = claim_verdict(
        program_id,
        accounts,
        merkle_context,
        mint,
        unlock_slot,
        bump_seed,
        current_slot,
    );
    match r {
        Some(Ok(call)) => {
            &&& verdict == Some(Ok::<(), CustomError>(()))
            &&& forwards_claim(
                call,
                accounts,
                validity_proof,
                root_index,
                merkle_context,
                amount,
                lamports,
                mint,
                unlock_slot,
                bump_seed,
            )
        },
        Some(Err(e)) => verdict == Some(Err::<(), CustomError>(e)),
        None => verdict is None,
    }
}

/// Handles a claim: makes the checks in their order and, where the request
/// passes them, builds the call that releases the tokens to the claimant.
///
/// The checks are, in order: the fixed accounts are there; the claimant and
/// the fee payer have signed; the token program is the expected one; the
/// unlock slot has been reached; the authority is the address derived from
/// the claimant, the mint, the unlock slot and the bump seed; the tree and
/// the queue of the merkle context are there. Returns `None` where the
/// first four pass and the seeds derive no address.
pub fn process_claim(
    program_id: &Address,
    accounts: &[Account],
    validity_proof: Option<CompressedProof>,
    root_index: u16,
    merkle_context: PackedMerkleContext,
    amount: u64,
    lamports: Option<u64>,
    mint: Address,
    unlock_slot: u64,
    bump_seed: u8,
    current_slot: u64,
) -> (r: Option<Result<ForwardRequest, CustomError>>)
    ensures
        answers_claim(
            r,
            *program_id,
            accounts@,
            validity_proof,
            root_index,
            merkle_context,
            amount,
            lamports,
            mint,
            unlock_slot,
            bump_seed,
            current_slot,
        ),
{
    if accounts.len() < CLAIM_HEAD_ACCOUNTS {
        return Some(
            Err(
                CustomError::InsufficientAccounts {
                    needed: CLAIM_HEAD_ACCOUNTS,
                    available: accounts.len(),
                },
            ),
        );
    }
    let claimant_info = &accounts[0];
    let fee_payer = &accounts[CPI_ACCOUNTS_START];
    match check_signers(claimant_info, fee_payer) {
        Err(e) => {
            return Some(Err(e));
        },
        Ok(()) => {},
    }
    match check_token_program(&ctoken_program_id(), &accounts[CPI_ACCOUNTS_START + 8].key) {
        Err(e) => {
            return Some(Err(e));
        },
        Ok(()) => {},
    }
    let ctoken_account = get_compressed_token_account_info(
        merkle_context,
        root_index,
        amount,
        lamports,
    );
    match check_time_lock(current_slot, unlock_slot) {
        Err(e) => {
            return Some(Err(e));
        },
        Ok(()) => {},
    }
    check_pda_and_claim_token(
        program_id,
        accounts,
        merkle_context,
        ctoken_account,
        &validity_proof,
        mint,
        unlock_slot,
        bump_seed,
    )
}

/// Checks the authority of a claim that has passed the early checks and
/// builds the call that releases the tokens.
fn check_pda_and_claim_token(
    claim_program: &Address,
    accounts: &[Account],
    merkle_context: PackedMerkleContext,
    compressed_token_account: InputTokenDataWithContext,
    validity_proof: &Option<CompressedProof>,
    mint: Address,
    slot: u64,
    bump_seed: u8,
) -> (r: Option<Result<ForwardRequest, CustomError>>)
    requires
        accounts.len() >= CLAIM_HEAD_ACCOUNTS,
        compressed_token_account.merkle_context == merkle_context,
        compressed_token_account.delegate_index is None,
        compressed_token_account.tlv is None,
    ensures
        match seeds_of_claim(accounts@, mint, slot, bump_seed).address(*claim_program) {
            Some(expected) => match r {
                Some(Ok(call)) => {
                    &&& late_verdict(expected, accounts@, merkle_context) is Ok
                    &&& forwards_claim(
                        call,
                        accounts@,
                        *validity_proof,
                        compressed_token_account.root_index,
                        merkle_context,
                        compressed_token_account.amount,
                        compressed_token_account.lamports,
                        mint,
                        slot,
                        bump_seed,
                    )
                },
                Some(Err(e)) => late_verdict(expected, accounts@, merkle_context) == Err::<
                    (),
                    CustomError,
                >(e),
                None => false,
            },
            None => r is None,
        },
{
    let claimant = accounts[0];
    let seeds = ClaimSeeds { claimant: claimant.key, mint, unlock_slot: slot, bump_seed };
    let signer_seeds = seeds.to_seeds();
    let parts = borrow_seeds(&signer_seeds);
    match try_check_claim_pda(parts.as_slice(), claim_program, &accounts[2].key) {
        None => {
            return None;
        },
        Some(Err(e)) => {
            return Some(Err(e));
        },
        Some(Ok(())) => {},
    }
    let contexts = [merkle_context];
    assert(contexts@ =~= seq![merkle_context]);
    let light_cpi_accounts = match get_decompress_cpi_accounts(
        accounts,
        CPI_ACCOUNTS_START,
        contexts.as_slice(),
    ) {
        Err(e) => {
            return Some(Err(e));
        },
        Ok((cpi, _remaining)) => cpi,
    };
    let token_accounts = vec![compressed_token_account];
    proof {
        let inputs = token_accounts@;
        assert(inputs =~= seq![compressed_token_account]);
        lemma_totals_single(compressed_token_account);
        assert(all_writable(inputs));
        assert(compressed_token_account == claimed_account(
            merkle_context,
            compressed_token_account.root_index,
            compressed_token_account.amount,
            compressed_token_account.lamports,
        ));
    }
    let instruction = match decompress(
        &mint,
        &claimant.key,
        token_accounts,
        validity_proof,
        &light_cpi_accounts,
        None,
    ) {
        Ok(instruction) => instruction,
        Err(e) => {
            return Some(Err(e));
        },
    };
    let account_infos = light_cpi_accounts.to_account_infos();
    proof {
        assert(light_cpi_accounts.all() =~= forwarded_accounts(accounts@, merkle_context));
    }
    Some(Ok(ForwardRequest { instruction, account_infos, signer_seeds }))
}

/// What becomes of a claim once the token program has answered the call:
/// the claim has succeeded where the call has, and has failed with the
/// token program's own error where the call has failed.
pub fn forward_outcome(answer: Result<(), u64>) -> (r: Result<(), CustomError>)
    ensures
        r == match answer {
            Ok(()) => Ok::<(), CustomError>(()),
            Err(underlying) => Err(CustomError::ForwardingFailed { underlying }),
        },
{
    match answer {
        Ok(()) => Ok(()),
        Err(underlying) => Err(CustomError::ForwardingFailed { underlying }),
    }
}

} // verus!
