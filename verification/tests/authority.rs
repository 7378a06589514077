use light_compressed_claim::address::{id, Address};
use light_compressed_claim::check_pda::{
    borrow_seeds, check_claim_pda, derive_address, try_check_claim_pda, verify_authority,
    ClaimSeeds,
};
use light_compressed_claim::error::CustomError;
use solana_program::pubkey::Pubkey;

fn claim(slot: u64) -> (ClaimSeeds, Address) {
    let claimant = Address::new_from_array([11u8; 32]);
    let mint = Address::new_from_array([22u8; 32]);
    let slot_bytes = slot.to_le_bytes();
    let (pda, bump_seed) = Pubkey::find_program_address(
        &[&claimant.to_bytes()[..], &mint.to_bytes()[..], &slot_bytes[..]],
        &Pubkey::new_from_array(id().to_bytes()),
    );
    (
        ClaimSeeds { claimant, mint, unlock_slot: slot, bump_seed },
        Address::new_from_array(pda.to_bytes()),
    )
}

fn underivable() -> ClaimSeeds {
    for slot in 0..1000u64 {
        let (seeds, _) = claim(slot);
        if seeds.bump_seed < 255 {
            return ClaimSeeds { bump_seed: 255, ..seeds };
        }
    }
    panic!("every slot derives an address at the highest bump seed");
}

#[test]
fn borrowed_seeds_are_the_seeds() {
    let seeds = vec![vec![1u8, 2], vec![], vec![3u8]];
    let parts = borrow_seeds(&seeds);
    assert_eq!(parts, vec![&[1u8, 2][..], &[][..], &[3u8][..]]);
    assert!(borrow_seeds(&vec![]).is_empty());
}

#[test]
fn seeds_are_listed_in_order() {
    let seeds = ClaimSeeds {
        claimant: Address::new_from_array([1u8; 32]),
        mint: Address::new_from_array([2u8; 32]),
        unlock_slot: 0x0102030405060708,
        bump_seed: 9,
    };
    assert_eq!(
        seeds.to_seeds(),
        vec![vec![1u8; 32], vec![2u8; 32], vec![8, 7, 6, 5, 4, 3, 2, 1], vec![9u8]]
    );
}

#[test]
fn derivation_agrees_with_the_ledger() {
    let (seeds, pda) = claim(1000);
    assert_eq!(seeds.derive(&id()), Some(pda));
    assert_eq!(derive_address(&borrow_seeds(&seeds.to_seeds()), &id()), Some(pda));
    assert_ne!(pda, id());
    assert_ne!(pda, seeds.claimant);
}

#[test]
fn derivation_is_deterministic() {
    let (seeds, _) = claim(1000);
    let again = ClaimSeeds {
        claimant: Address::new_from_array([11u8; 32]),
        mint: Address::new_from_array([22u8; 32]),
        unlock_slot: 1000,
        bump_seed: seeds.bump_seed,
    };
    assert_eq!(seeds.derive(&id()), again.derive(&id()));
    assert!(seeds.derive(&id()).is_some());
}

#[test]
fn derivation_depends_on_the_program() {
    let (seeds, pda) = claim(1000);
    let other = Address::new_from_array([99u8; 32]);
    assert_ne!(seeds.derive(&other), Some(pda));
}

#[test]
fn derived_authority_is_accepted() {
    let (seeds, pda) = claim(1000);
    assert_eq!(check_claim_pda(&borrow_seeds(&seeds.to_seeds()), &id(), &pda), Ok(()));
    assert_eq!(try_check_claim_pda(&borrow_seeds(&seeds.to_seeds()), &id(), &pda), Some(Ok(())));
}

#[test]
fn other_authority_is_rejected() {
    let (seeds, pda) = claim(1000);
    let other = Address::new_from_array([5u8; 32]);
    assert_eq!(
        check_claim_pda(&borrow_seeds(&seeds.to_seeds()), &id(), &other),
        Err(CustomError::InvalidAuthority { expected: pda, found: other })
    );
    assert_eq!(
        try_check_claim_pda(&borrow_seeds(&seeds.to_seeds()), &id(), &other),
        Some(Err(CustomError::InvalidAuthority { expected: pda, found: other }))
    );
}

#[test]
fn authority_differing_in_one_bit_is_rejected() {
    let (seeds, pda) = claim(1000);
    for byte in 0..32 {
        for bit in 0..8 {
            let mut bytes = pda.to_bytes();
            bytes[byte] ^= 1 << bit;
            let found = Address::new_from_array(bytes);
            assert_eq!(
                verify_authority(&pda, &found),
                Err(CustomError::InvalidAuthority { expected: pda, found })
            );
            assert_eq!(
                try_check_claim_pda(&borrow_seeds(&seeds.to_seeds()), &id(), &found),
                Some(Err(CustomError::InvalidAuthority { expected: pda, found }))
            );
        }
    }
    assert_eq!(verify_authority(&pda, &pda), Ok(()));
}

fn rejected_or_underivable(seeds: &ClaimSeeds, pda: &Address) {
    match try_check_claim_pda(&borrow_seeds(&seeds.to_seeds()), &id(), pda) {
        None => {}
        Some(Err(CustomError::InvalidAuthority { expected, found })) => {
            assert_ne!(expected, *pda);
            assert_eq!(found, *pda);
        }
        other => panic!("a changed seed was accepted: {:?}", other),
    }
}

#[test]
fn changing_one_bit_of_a_seed_loses_the_authority() {
    let (seeds, pda) = claim(1000);
    for byte in 0..32 {
        for bit in 0..8 {
            let mut claimant = seeds.claimant.to_bytes();
            claimant[byte] ^= 1 << bit;
            let changed = ClaimSeeds { claimant: Address::new_from_array(claimant), ..seeds };
            rejected_or_underivable(&changed, &pda);
            let mut mint = seeds.mint.to_bytes();
            mint[byte] ^= 1 << bit;
            let changed = ClaimSeeds { mint: Address::new_from_array(mint), ..seeds };
            rejected_or_underivable(&changed, &pda);
        }
    }
    for bit in 0..64 {
        let changed = ClaimSeeds { unlock_slot: seeds.unlock_slot ^ (1 << bit), ..seeds };
        rejected_or_underivable(&changed, &pda);
    }
    for bit in 0..8 {
        let changed = ClaimSeeds { bump_seed: seeds.bump_seed ^ (1 << bit), ..seeds };
        rejected_or_underivable(&changed, &pda);
    }
}

#[test]
fn seeds_that_derive_nothing_give_no_verdict() {
    let seeds = underivable();
    let slot_bytes = seeds.unlock_slot.to_le_bytes();
    assert!(Pubkey::create_program_address(
        &[
            &seeds.claimant.to_bytes()[..],
            &seeds.mint.to_bytes()[..],
            &slot_bytes[..],
            &[seeds.bump_seed],
        ],
        &Pubkey::new_from_array(id().to_bytes()),
    )
    .is_err());
    assert_eq!(seeds.derive(&id()), None);
    let any = Address::new_from_array([1u8; 32]);
    assert_eq!(try_check_claim_pda(&borrow_seeds(&seeds.to_seeds()), &id(), &any), None);
}

#[test]
fn too_long_a_seed_derives_nothing() {
    let seed = [0u8; 33];
    assert_eq!(derive_address(&[&seed[..]], &id()), None);
    assert!(derive_address(&[&seed[..32]], &id()).is_some()
        || derive_address(&[&seed[..32], &[1u8]], &id()).is_some()
        || derive_address(&[&seed[..32], &[2u8]], &id()).is_some()
        || derive_address(&[&seed[..32], &[3u8]], &id()).is_some());
}
