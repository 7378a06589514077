//! The address that authorizes a claim: how it is derived, and how an
//! account presented as the authority is held against it.
use vstd::prelude::*;
use vstd::bytes::{spec_u64_to_le_bytes, u64_to_le_bytes};
use crate::address::{lemma_address_eq, Address};
use crate::error::CustomError;
use crate::wire::lemma_int_bytes;

verus! {

/// The address that the ledger derives for a program from a list of seeds,
/// if it derives one. No key pair exists for such an address: only the
/// program itself can sign for it, by naming the seeds.
pub uninterp spec fn program_address(seeds: Seq<Seq<u8>>, program_id: Seq<u8>) -> Option<Seq<u8>>;

/// `solana_program::pubkey::Pubkey::create_program_address`, on plain bytes.
///
/// The contract names the result and claims that it depends on the seeds
/// and on the program alone. Nothing is proved of the derivation itself: it
/// hashes the seeds, the program and a marker, and yields no address where
/// there are too many seeds, a seed is too long, or the hash is a point of
/// the curve on which key pairs live.
#[verifier::external_body]
fn create_program_address(seeds: &[&[u8]], program_id: &Address) -> (r: Option<Address>)
    ensures
        match r {
            Some(a) => program_address(seeds.deep_view(), program_id@) == Some(a@),
            None => program_address(seeds.deep_view(), program_id@) is None,
        },
{
    let id = solana_program::pubkey::Pubkey::new_from_array(program_id.bytes);
    match solana_program::pubkey::Pubkey::create_program_address(seeds, &id) {
        Ok(key) => Some(Address { bytes: key.to_bytes() }),
        Err(_) => None,
    }
}

/// The address that has the given bytes.
pub open spec fn address_with(bytes: Seq<u8>) -> Address {
    choose|a: Address| a@ == bytes
}

/// An address is the address that has its bytes.
pub proof fn lemma_address_with(a: Address)
    ensures
        address_with(a@) == a,
{
    lemma_address_eq(address_with(a@), a);
}

/// The address derived for a program from a list of seeds, if there is one.
pub open spec fn derived_address(seeds: Seq<Seq<u8>>, program_id: Address) -> Option<Address> {
    match program_address(seeds, program_id@) {
        Some(bytes) => Some(address_with(bytes)),
        None => None,
    }
}

/// Derives the address of a program for a list of seeds.
pub fn derive_address(seeds: &[&[u8]], program_id: &Address) -> (r: Option<Address>)
    ensures
        r == derived_address(seeds.deep_view(), *program_id),
{
    let r = create_program_address(seeds, program_id);
    proof {
        if let Some(a) = r {
            lemma_address_with(a);
        }
    }
    r
}

/// What a claim is bound to: the claimant, the mint of the tokens, the slot
/// from which they may be claimed, and the bump seed that makes the four
/// derive an address.
#[derive(Clone, Copy, Debug, PartialEq, Eq)]
pub struct ClaimSeeds {
    pub claimant: Address,
    pub mint: Address,
    pub unlock_slot: u64,
    pub bump_seed: u8,
}

impl ClaimSeeds {
    /// The seeds in the order in which the address is derived from them:
    /// the claimant, the mint, the unlock slot with its low byte first, and
    /// the bump seed.
    pub open spec fn seeds(self) -> Seq<Seq<u8>> {
        seq![
            self.claimant@,
            self.mint@,
            spec_u64_to_le_bytes(self.unlock_slot),
            seq![self.bump_seed],
        ]
    }

    /// The address that authorizes the claim under the given program, if
    /// the seeds derive one.
    pub open spec fn address(self, program_id: Address) -> Option<Address> {
        derived_address(self.seeds(), program_id)
    }

    /// Lists the seeds.
    pub fn to_seeds(&self) -> (r: Vec<Vec<u8>>)
        ensures
            r.deep_view() == self.seeds(),
    {
        let mut bump: Vec<u8> = Vec::new();
        bump.push(self.bump_seed);
        let r = vec![
            self.claimant.to_vec(),
            self.mint.to_vec(),
            u64_to_le_bytes(self.unlock_slot),
            bump,
        ];
        proof {
            assert(r.deep_view().len() == 4);
            assert(r.deep_view()[0] =~= self.claimant@);
            assert(r.deep_view()[1] =~= self.mint@);
            assert(r.deep_view()[2] =~= spec_u64_to_le_bytes(self.unlock_slot));
            assert(r.deep_view()[3] =~= seq![self.bump_seed]);
            assert(r.deep_view() =~= self.seeds());
        }
        r
    }

    /// Derives the address that authorizes the claim under the given
    /// program.
    pub fn derive(&self, program_id: &Address) -> (r: Option<Address>)
        ensures
            r == self.address(*program_id),
    {
        let seeds = self.to_seeds();
        let parts = borrow_seeds(&seeds);
        derive_address(parts.as_slice(), program_id)
    }
}

/// Borrows each seed of a list of seeds.
pub fn borrow_seeds<'a>(seeds: &'a Vec<Vec<u8>>) -> (r: Vec<&'a [u8]>)
    ensures
        r.deep_view() == seeds.deep_view(),
{
    let mut parts: Vec<&[u8]> = Vec::new();
    let mut i: usize = 0;
    while i < seeds.len()
        invariant
            i <= seeds.len(),
            parts.len() == i,
            forall|j: int| 0 <= j < i ==> parts@[j]@ == seeds@[j]@,
        decreases seeds.len() - i,
    {
        parts.push(seeds[i].as_slice());
        i += 1;
    }
    proof {
        assert(parts.deep_view().len() == seeds.deep_view().len());
        assert forall|j: int| 0 <= j < seeds.len() implies parts.deep_view()[j]
            == seeds.deep_view()[j] by {
            assert(parts.deep_view()[j] =~= parts@[j]@);
            assert(seeds.deep_view()[j] =~= seeds@[j]@);
        }
        assert(parts.deep_view() =~= seeds.deep_view());
    }
    parts
}

/// The same seeds always derive the same address.
pub proof fn lemma_derivation_deterministic(
    first: ClaimSeeds,
    second: ClaimSeeds,
    program_id: Address,
)
    requires
        first.claimant@ == second.claimant@,
        first.mint@ == second.mint@,
        first.unlock_slot == second.unlock_slot,
        first.bump_seed == second.bump_seed,
    ensures
        first.address(program_id) == second.address(program_id),
{
}

/// Claims that differ in the claimant, the mint, the unlock slot or the
/// bump seed have different seeds.
pub proof fn lemma_seeds_injective(first: ClaimSeeds, second: ClaimSeeds)
    requires
        first.seeds() == second.seeds(),
    ensures
        first == second,
{
    lemma_int_bytes();
    assert(first.seeds()[0] == first.claimant@ && second.seeds()[0] == second.claimant@);
    assert(first.seeds()[1] == first.mint@ && second.seeds()[1] == second.mint@);
    assert(first.seeds()[2] == spec_u64_to_le_bytes(first.unlock_slot));
    assert(second.seeds()[2] == spec_u64_to_le_bytes(second.unlock_slot));
    assert(first.seeds()[3] == seq![first.bump_seed]);
    assert(second.seeds()[3] == seq![second.bump_seed]);
    assert(seq![first.bump_seed][0] == seq![second.bump_seed][0]);
    lemma_address_eq(first.claimant, second.claimant);
    lemma_address_eq(first.mint, second.mint);
}

/// What comes of holding the presented account against the derived
/// address: the claim is authorized exactly when the two are the same.
pub open spec fn authority_verdict(expected: Address, found: Address) -> Result<(), CustomError> {
    if expected@ == found@ {
        Ok(())
    } else {
        Err(CustomError::InvalidAuthority { expected, found })
    }
}

/// Holds the account presented as the authority against the address that
/// was derived for the claim.
pub fn verify_authority(expected: &Address, found: &Address) -> (r: Result<(), CustomError>)
    ensures
        r == authority_verdict(*expected, *found),
        r is Ok <==> *expected == *found,
{
    proof {
        lemma_address_eq(*expected, *found);
    }
    if *expected != *found {
        return Err(CustomError::InvalidAuthority { expected: *expected, found: *found });
    }
    Ok(())
}

/// Derives the address for the seeds and holds the presented account
/// against it.
///
/// The seeds must derive an address; `try_check_claim_pda` is for seeds of
/// which that is not known.
pub fn check_claim_pda(
    seeds: &[&[u8]],
    claim_program: &Address,
    airdrop_account: &Address,
) -> (r: Result<(), CustomError>)
    requires
        derived_address(seeds.deep_view(), *claim_program) is Some,
    ensures
        r == authority_verdict(
            derived_address(seeds.deep_view(), *claim_program)->0,
            *airdrop_account,
        ),
        r is Ok <==> derived_address(seeds.deep_view(), *claim_program) == Some(*airdrop_account),
{
    proof {
        lemma_address_eq(
            derived_address(seeds.deep_view(), *claim_program)->0,
            *airdrop_account,
        );
    }
    match derive_address(seeds, claim_program) {
        Some(derived_pda) => verify_authority(&derived_pda, airdrop_account),
        None => vstd::pervasive::unreached(),
    }
}

/// Derives the address for the seeds and, if they derive one, holds the
/// presented account against it. Returns `None` where the seeds derive no
/// address.
pub fn try_check_claim_pda(
    seeds: &[&[u8]],
    claim_program: &Address,
    airdrop_account: &Address,
) -> (r: Option<Result<(), CustomError>>)
    ensures
        r == match derived_address(seeds.deep_view(), *claim_program) {
            Some(expected) => Some(authority_verdict(expected, *airdrop_account)),
            None => None,
        },
        r == Some(Ok::<(), CustomError>(())) <==> derived_address(
            seeds.deep_view(),
            *claim_program,
        ) == Some(*airdrop_account),
{
    proof {
        if let Some(expected) = derived_address(seeds.deep_view(), *claim_program) {
            lemma_address_eq(expected, *airdrop_account);
        }
    }
    match derive_address(seeds, claim_program) {
        Some(_) => Some(check_claim_pda(seeds, claim_program, airdrop_account)),
        None => None,
    }
}

} // verus!
