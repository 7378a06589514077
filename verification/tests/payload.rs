use borsh::BorshSerialize;
use light_compressed_claim::account::{Account, AccountMeta};
use light_compressed_claim::address::{ctoken_program_id, Address, CTOKEN_PROGRAM_ID};
use light_compressed_claim::instructions::sdk::{
    decompress, decompress_token_instruction_data, decompress_with_amounts, frame_transfer,
    CompressedTokenDecompressCpiAccounts, CompressedTokenProgramGetter, ToAccountInfos,
    TRANSFER_DISCRIMINATOR,
};
use light_compressed_claim::token::{
    write_transfer_payload, CompressedCpiContext, CompressedProof, InputTokenDataWithContext,
    PackedMerkleContext, PackedTokenTransferOutputData,
};
use light_token_types::{
    CompressedTokenInstructionDataTransfer, InputTokenDataWithContextOnchain,
};

fn sample_proof() -> CompressedProof {
    let mut b = [0u8; 64];
    for i in 0..64 {
        b[i] = i as u8;
    }
    CompressedProof { a: [1u8; 32], b, c: [3u8; 32] }
}

fn input(amount: u64, lamports: Option<u64>, tree: u8) -> InputTokenDataWithContext {
    InputTokenDataWithContext {
        amount,
        delegate_index: None,
        merkle_context: PackedMerkleContext {
            merkle_tree_pubkey_index: tree,
            queue_pubkey_index: tree + 1,
            leaf_index: 70000,
            prove_by_index: false,
        },
        root_index: 513,
        lamports,
        tlv: None,
    }
}

fn reference_input(i: &InputTokenDataWithContext) -> InputTokenDataWithContextOnchain {
    InputTokenDataWithContextOnchain {
        amount: i.amount,
        delegate_index: i.delegate_index,
        merkle_context: light_token_types::PackedMerkleContext {
            merkle_tree_pubkey_index: i.merkle_context.merkle_tree_pubkey_index,
            nullifier_queue_pubkey_index: i.merkle_context.queue_pubkey_index,
            leaf_index: i.merkle_context.leaf_index,
            proof_by_index: i.merkle_context.prove_by_index,
        },
        root_index: i.root_index,
        lamports: i.lamports,
        tlv: i.tlv.clone(),
    }
}

fn reference_payload(
    validity_proof: &Option<CompressedProof>,
    mint: &Address,
    inputs: &[InputTokenDataWithContext],
    outputs: &[PackedTokenTransferOutputData],
    amount: Option<u64>,
    cpi_context: &Option<CompressedCpiContext>,
) -> Vec<u8> {
    let transfer = CompressedTokenInstructionDataTransfer {
        proof: validity_proof.map(|p| light_token_types::CompressedProof { a: p.a, b: p.b, c: p.c }),
        mint: mint.to_bytes(),
        delegated_transfer: None,
        input_token_data_with_context: inputs.iter().map(reference_input).collect(),
        output_compressed_accounts: outputs
            .iter()
            .map(|o| light_token_types::PackedTokenTransferOutputData {
                owner: o.owner.to_bytes(),
                amount: o.amount,
                lamports: o.lamports,
                merkle_tree_index: o.merkle_tree_index,
                tlv: None,
            })
            .collect(),
        is_compress: false,
        compress_or_decompress_amount: amount,
        cpi_context: cpi_context.map(|c| light_token_types::CompressedCpiContext {
            set_context: c.set_context,
            first_set_context: c.first_set_context,
            cpi_context_account_index: c.cpi_context_account_index,
        }),
        lamports_change_account_merkle_tree_index: None,
        with_transaction_hash: false,
    };
    transfer.try_to_vec().unwrap()
}

fn framed(payload: &[u8]) -> Vec<u8> {
    let mut data = vec![163, 52, 200, 231, 140, 3, 69, 186];
    data.extend_from_slice(&(payload.len() as u32).to_le_bytes());
    data.extend_from_slice(payload);
    data
}

#[test]
fn token_program_id_is_the_known_program() {
    assert_eq!(CTOKEN_PROGRAM_ID, light_token_types::PROGRAM_ID);
    assert_eq!(ctoken_program_id().to_bytes(), light_token_types::PROGRAM_ID);
}

#[test]
fn discriminator_is_that_of_a_transfer() {
    assert_eq!(TRANSFER_DISCRIMINATOR, [163, 52, 200, 231, 140, 3, 69, 186]);
    assert_eq!(TRANSFER_DISCRIMINATOR, light_token_types::constants::TRANSFER);
}

#[test]
fn payload_agrees_with_the_token_program_types() {
    let mint = Address::new_from_array([9u8; 32]);
    let owner = Address::new_from_array([8u8; 32]);
    let mut with_extras = input(5, Some(6), 2);
    with_extras.delegate_index = Some(4);
    with_extras.tlv = Some(vec![1, 2, 3]);
    let input_lists = vec![
        vec![],
        vec![input(1000, None, 0)],
        vec![input(1, Some(2), 0), with_extras, input(u64::MAX - 10, None, 7)],
    ];
    let output_lists = vec![
        vec![],
        vec![PackedTokenTransferOutputData {
            owner,
            amount: 12,
            lamports: Some(13),
            merkle_tree_index: 14,
        }],
        vec![
            PackedTokenTransferOutputData {
                owner,
                amount: 0,
                lamports: None,
                merkle_tree_index: 0,
            },
            PackedTokenTransferOutputData {
                owner: mint,
                amount: u64::MAX,
                lamports: Some(u64::MAX),
                merkle_tree_index: 255,
            },
        ],
    ];
    let contexts = [
        None,
        Some(CompressedCpiContext {
            set_context: true,
            first_set_context: false,
            cpi_context_account_index: 3,
        }),
    ];
    for validity_proof in [None, Some(sample_proof())] {
        for inputs in input_lists.iter() {
            for outputs in output_lists.iter() {
                for amount in [None, Some(0u64), Some(123456789)] {
                    for context in contexts.iter() {
                        let ours = write_transfer_payload(
                            &validity_proof,
                            &mint,
                            inputs,
                            outputs,
                            amount,
                            context,
                        );
                        let theirs = reference_payload(
                            &validity_proof,
                            &mint,
                            inputs,
                            outputs,
                            amount,
                            context,
                        );
                        assert_eq!(ours, theirs);
                    }
                }
            }
        }
    }
}

#[test]
fn smallest_payload_has_exact_bytes() {
    let mint = Address::new_from_array([9u8; 32]);
    let bytes = write_transfer_payload(&None, &mint, &vec![], &vec![], Some(1), &None);
    let mut expected = vec![0u8];
    expected.extend_from_slice(&[9u8; 32]);
    expected.push(0);
    expected.extend_from_slice(&[0, 0, 0, 0]);
    expected.extend_from_slice(&[0, 0, 0, 0]);
    expected.push(0);
    expected.extend_from_slice(&[1, 1, 0, 0, 0, 0, 0, 0, 0]);
    expected.extend_from_slice(&[0, 0, 0]);
    assert_eq!(bytes, expected);
}

#[test]
fn frame_puts_discriminator_and_length_first() {
    let body = vec![7u8; 300];
    let data = frame_transfer(&body);
    assert_eq!(data.len(), 312);
    assert_eq!(&data[..8], &[163, 52, 200, 231, 140, 3, 69, 186]);
    assert_eq!(&data[8..12], &[44, 1, 0, 0]);
    assert_eq!(&data[12..], &body[..]);
    assert_eq!(frame_transfer(&vec![]), vec![163, 52, 200, 231, 140, 3, 69, 186, 0, 0, 0, 0]);
}

#[test]
fn full_decompress_creates_no_account() {
    let mint = Address::new_from_array([9u8; 32]);
    let owner = Address::new_from_array([8u8; 32]);
    let inputs = vec![input(600, Some(5), 1), input(400, None, 2)];
    let data = decompress_token_instruction_data(
        &mint,
        &Some(sample_proof()),
        &owner,
        inputs.clone(),
        None,
        None,
        None,
    );
    let payload = reference_payload(&Some(sample_proof()), &mint, &inputs, &[], Some(1000), &None);
    assert_eq!(data, framed(&payload));
}

#[test]
fn partial_decompress_leaves_the_rest_to_the_owner() {
    let mint = Address::new_from_array([9u8; 32]);
    let owner = Address::new_from_array([8u8; 32]);
    let inputs = vec![input(600, Some(5), 3), input(400, Some(7), 2)];
    let context = CompressedCpiContext {
        set_context: false,
        first_set_context: true,
        cpi_context_account_index: 0,
    };
    let data = decompress_token_instruction_data(
        &mint,
        &None,
        &owner,
        inputs.clone(),
        Some(&context),
        Some(250),
        Some(2),
    );
    let change = PackedTokenTransferOutputData {
        owner,
        amount: 750,
        lamports: Some(10),
        merkle_tree_index: 3,
    };
    let payload =
        reference_payload(&None, &mint, &inputs, &[change], Some(250), &Some(context));
    assert_eq!(data, framed(&payload));
}

#[test]
fn partial_decompress_without_lamports_left_names_none() {
    let mint = Address::new_from_array([9u8; 32]);
    let owner = Address::new_from_array([8u8; 32]);
    let inputs = vec![input(600, Some(5), 3)];
    let data = decompress_token_instruction_data(
        &mint,
        &None,
        &owner,
        inputs.clone(),
        None,
        Some(599),
        None,
    );
    let change =
        PackedTokenTransferOutputData { owner, amount: 1, lamports: None, merkle_tree_index: 3 };
    let payload = reference_payload(&None, &mint, &inputs, &[change], Some(599), &None);
    assert_eq!(data, framed(&payload));
}

#[test]
fn asking_for_the_whole_amount_creates_no_account() {
    let mint = Address::new_from_array([9u8; 32]);
    let owner = Address::new_from_array([8u8; 32]);
    let inputs = vec![input(600, None, 3)];
    for asked in [600u64, 601, u64::MAX] {
        let data = decompress_token_instruction_data(
            &mint,
            &None,
            &owner,
            inputs.clone(),
            None,
            Some(asked),
            Some(0),
        );
        let payload = reference_payload(&None, &mint, &inputs, &[], Some(asked), &None);
        assert_eq!(data, framed(&payload));
    }
}

fn account(n: u8) -> Account {
    Account { key: Address::new_from_array([n; 32]), is_signer: n % 2 == 0, is_writable: n % 3 == 0 }
}

fn cpi_accounts(tail: Vec<Account>) -> CompressedTokenDecompressCpiAccounts {
    CompressedTokenDecompressCpiAccounts {
        fee_payer: account(1),
        authority: account(2),
        cpi_authority_pda: account(3),
        light_system_program: account(4),
        registered_program_pda: account(5),
        noop_program: account(6),
        account_compression_authority: account(7),
        account_compression_program: account(8),
        self_program: account(9),
        token_pool_pda: account(10),
        decompress_destination: account(11),
        token_program: account(12),
        system_program: account(13),
        tree_and_queue_accounts: tail,
    }
}

#[test]
fn accounts_are_listed_in_call_order() {
    let cpi = cpi_accounts(vec![account(20), account(21), account(22)]);
    let listed = cpi.to_account_infos();
    let mut expected: Vec<Account> = (1..=13).map(account).collect();
    expected.extend_from_slice(&[account(20), account(21), account(22)]);
    assert_eq!(listed, expected);
    assert_eq!(*cpi.compressed_token_program(), account(9));
    assert_eq!(cpi_accounts(vec![]).to_account_infos().len(), 13);
}

#[test]
fn decompress_instruction_names_program_accounts_and_data() {
    let mint = Address::new_from_array([9u8; 32]);
    let owner = Address::new_from_array([8u8; 32]);
    let cpi = cpi_accounts(vec![account(20), account(21)]);
    let inputs = vec![input(1000, None, 0)];
    let instruction =
        decompress(&mint, &owner, inputs.clone(), &Some(sample_proof()), &cpi, None).unwrap();
    assert_eq!(instruction.program_id, account(9).key);
    assert_eq!(instruction.accounts.len(), 15);
    assert_eq!(instruction.accounts[0], AccountMeta::new(account(1).key, true));
    assert_eq!(instruction.accounts[1], AccountMeta::new_readonly(account(2).key, true));
    for i in [2usize, 3, 4, 5, 6, 7, 8, 11, 12] {
        assert_eq!(
            instruction.accounts[i],
            AccountMeta::new_readonly(account(i as u8 + 1).key, false)
        );
    }
    assert_eq!(instruction.accounts[9], AccountMeta::new(account(10).key, false));
    assert_eq!(instruction.accounts[10], AccountMeta::new(account(11).key, false));
    assert_eq!(instruction.accounts[13], AccountMeta::new(account(20).key, false));
    assert_eq!(instruction.accounts[14], AccountMeta::new(account(21).key, false));
    let payload = reference_payload(&Some(sample_proof()), &mint, &inputs, &[], Some(1000), &None);
    assert_eq!(instruction.data, framed(&payload));
    let same = decompress_with_amounts(
        &mint,
        &owner,
        inputs,
        &Some(sample_proof()),
        &cpi,
        None,
        None,
        None,
    )
    .unwrap();
    assert_eq!(same, instruction);
}

#[test]
fn account_meta_constructors_set_the_write_flag() {
    let key = Address::new_from_array([1u8; 32]);
    assert_eq!(
        AccountMeta::new(key, false),
        AccountMeta { pubkey: key, is_signer: false, is_writable: true }
    );
    assert_eq!(
        AccountMeta::new_readonly(key, true),
        AccountMeta { pubkey: key, is_signer: true, is_writable: false }
    );
}
