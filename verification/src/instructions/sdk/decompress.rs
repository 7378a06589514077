//! The instruction that takes tokens out of compression: what it asks of
//! its accounts and the bytes it carries.
use vstd::prelude::*;
use vstd::bytes::spec_u32_to_le_bytes;
use crate::account::{Account, AccountMeta, Instruction};
use crate::address::Address;
use crate::error::CustomError;
use crate::instructions::sdk::accounts::{
    CompressedTokenDecompressCpiAccounts, BASE_CPI_ACCOUNT_COUNT,
};
use crate::token::{
    all_writable, transfer_payload, write_transfer_payload, CompressedCpiContext,
    CompressedProof, InputTokenDataWithContext, PackedTokenTransferOutputData,
};
use crate::wire::{put_bytes, put_u32};

verus! {

/// The eight bytes by which the token program knows a transfer call.
pub const TRANSFER_DISCRIMINATOR: [u8; 8] = [163, 52, 200, 231, 140, 3, 69, 186];

/// The sum of the token amounts of the given accounts.
pub open spec fn total_amount(inputs: Seq<InputTokenDataWithContext>) -> int
    decreases inputs.len(),
{
    if inputs.len() == 0 {
        0
    } else {
        total_amount(inputs.drop_last()) + inputs.last().amount
    }
}

/// The sum of the lamports of the given accounts; an account without
/// lamports counts as zero.
pub open spec fn total_lamports(inputs: Seq<InputTokenDataWithContext>) -> int
    decreases inputs.len(),
{
    if inputs.len() == 0 {
        0
    } else {
        total_lamports(inputs.drop_last()) + match inputs.last().lamports {
            Some(l) => l as int,
            None => 0,
        }
    }
}

/// The amount that leaves compression: the one asked for, or else all of it.
pub open spec fn amount_released(
    inputs: Seq<InputTokenDataWithContext>,
    decompress_amount: Option<u64>,
) -> int {
    match decompress_amount {
        Some(a) => a as int,
        None => total_amount(inputs),
    }
}

/// The lamports that leave compression: those asked for, or else all.
pub open spec fn lamports_released(
    inputs: Seq<InputTokenDataWithContext>,
    decompress_lamports: Option<u64>,
) -> int {
    match decompress_lamports {
        Some(l) => l as int,
        None => total_lamports(inputs),
    }
}

/// The accounts that the call creates. Where less than the whole amount
/// leaves compression, the remainder goes to one new account of the owner,
/// in the tree of the first spent account, with the lamports that stay
/// behind if there are any. Otherwise the call creates no account.
pub open spec fn change_outputs(
    owner: Address,
    inputs: Seq<InputTokenDataWithContext>,
    decompress_amount: Option<u64>,
    decompress_lamports: Option<u64>,
) -> Seq<PackedTokenTransferOutputData> {
    if amount_released(inputs, decompress_amount) < total_amount(inputs) {
        let kept = total_lamports(inputs) - lamports_released(inputs, decompress_lamports);
        seq![
            PackedTokenTransferOutputData {
                owner,
                amount: (total_amount(inputs) - amount_released(inputs, decompress_amount)) as u64,
                lamports: if kept > 0 {
                    Some(kept as u64)
                } else {
                    None
                },
                merkle_tree_index: inputs[0].merkle_context.merkle_tree_pubkey_index,
            },
        ]
    } else {
        Seq::empty()
    }
}

/// Whether a call can be made for the given accounts and amounts: the
/// totals fit in 64 bits, the list of accounts and their extension data
/// have lengths that four bytes can hold, and where a remainder stays
/// compressed, no more lamports are taken out than there are.
pub open spec fn decompress_inputs_valid(
    inputs: Seq<InputTokenDataWithContext>,
    decompress_amount: Option<u64>,
    decompress_lamports: Option<u64>,
) -> bool {
    &&& total_amount(inputs) <= u64::MAX
    &&& total_lamports(inputs) <= u64::MAX
    &&& inputs.len() <= u32::MAX
    &&& all_writable(inputs)
    &&& amount_released(inputs, decompress_amount) < total_amount(inputs) ==> lamports_released(
        inputs,
        decompress_lamports,
    ) <= total_lamports(inputs)
}

/// The body of the transfer call that decompresses the given accounts.
pub open spec fn decompress_payload(
    mint: Address,
    validity_proof: Option<CompressedProof>,
    owner: Address,
    inputs: Seq<InputTokenDataWithContext>,
    cpi_context: Option<CompressedCpiContext>,
    decompress_amount: Option<u64>,
    decompress_lamports: Option<u64>,
) -> Seq<u8> {
    transfer_payload(
        validity_proof,
        mint,
        inputs,
        change_outputs(owner, inputs, decompress_amount, decompress_lamports),
        Some(amount_released(inputs, decompress_amount) as u64),
        cpi_context,
    )
}

/// The bytes of the transfer call: the discriminator, the length of the
/// body in four bytes, and the body.
pub open spec fn decompress_instruction_data(
    mint: Address,
    validity_proof: Option<CompressedProof>,
    owner: Address,
    inputs: Seq<InputTokenDataWithContext>,
    cpi_context: Option<CompressedCpiContext>,
    decompress_amount: Option<u64>,
    decompress_lamports: Option<u64>,
) -> Seq<u8> {
    let body = decompress_payload(
        mint,
        validity_proof,
        owner,
        inputs,
        cpi_context,
        decompress_amount,
        decompress_lamports,
    );
    TRANSFER_DISCRIMINATOR@ + spec_u32_to_le_bytes(body.len() as u32) + body
}

/// Neither total is negative, and neither shrinks as accounts are added.
pub proof fn lemma_totals_grow(inputs: Seq<InputTokenDataWithContext>, n: int)
    requires
        0 <= n <= inputs.len(),
    ensures
        0 <= total_amount(inputs.subrange(0, n)) <= total_amount(inputs),
        0 <= total_lamports(inputs.subrange(0, n)) <= total_lamports(inputs),
    decreases inputs.len() - n,
{
    lemma_totals_nonnegative(inputs.subrange(0, n));
    if n < inputs.len() {
        lemma_totals_grow(inputs, n + 1);
        assert(inputs.subrange(0, n + 1).drop_last() =~= inputs.subrange(0, n));
    } else {
        assert(inputs.subrange(0, n) =~= inputs);
    }
}

/// Neither total is negative.
pub proof fn lemma_totals_nonnegative(inputs: Seq<InputTokenDataWithContext>)
    ensures
        0 <= total_amount(inputs),
        0 <= total_lamports(inputs),
        inputs.len() > 0 ==> total_amount(inputs) >= inputs[0].amount,
    decreases inputs.len(),
{
    if inputs.len() > 0 {
        lemma_totals_nonnegative(inputs.drop_last());
    }
}

/// The totals of a single account are what it holds.
pub proof fn lemma_totals_single(input: InputTokenDataWithContext)
    ensures
        total_amount(seq![input]) == input.amount,
        total_lamports(seq![input]) == match input.lamports {
            Some(l) => l as int,
            None => 0,
        },
{
    let inputs = seq![input];
    assert(inputs.drop_last() =~= Seq::<InputTokenDataWithContext>::empty());
    assert(total_amount(inputs.drop_last()) == 0);
    assert(total_lamports(inputs.drop_last()) == 0);
}

/// Adds up the token amounts and the lamports of the given accounts.
fn totals(inputs: &Vec<InputTokenDataWithContext>) -> (r: (u64, u64))
    requires
        total_amount(inputs@) <= u64::MAX,
        total_lamports(inputs@) <= u64::MAX,
    ensures
        r.0 == total_amount(inputs@),
        r.1 == total_lamports(inputs@),
{
    let mut amount: u64 = 0;
    let mut lamports: u64 = 0;
    let mut i: usize = 0;
    while i < inputs.len()
        invariant
            i <= inputs.len(),
            total_amount(inputs@) <= u64::MAX,
            total_lamports(inputs@) <= u64::MAX,
            amount == total_amount(inputs@.subrange(0, i as int)),
            lamports == total_lamports(inputs@.subrange(0, i as int)),
        decreases inputs.len() - i,
    {
        proof {
            lemma_totals_grow(inputs@, i + 1);
            assert(inputs@.subrange(0, i + 1).drop_last() =~= inputs@.subrange(0, i as int));
        }
        amount = amount + inputs[i].amount;
        lamports = lamports + match inputs[i].lamports {
            Some(l) => l,
            None => 0,
        };
        i += 1;
    }
    proof {
        assert(inputs@.subrange(0, inputs.len() as int) =~= inputs@);
    }
    (amount, lamports)
}

/// Puts the discriminator and the length of the body in front of the body
/// of a transfer call.
pub fn frame_transfer(body: &Vec<u8>) -> (data: Vec<u8>)
    ensures
        data@ == TRANSFER_DISCRIMINATOR@ + spec_u32_to_le_bytes(body@.len() as u32) + body@,
{
    let mut inputs: Vec<u8> = Vec::new();
    put_bytes(&mut inputs, TRANSFER_DISCRIMINATOR.as_slice());
    put_u32(&mut inputs, #[verifier::truncate] (body.len() as u32));
    put_bytes(&mut inputs, body.as_slice());
    assert(inputs@ =~= TRANSFER_DISCRIMINATOR@ + spec_u32_to_le_bytes(body@.len() as u32) + body@);
    inputs
}

/// The shared context behind an optional reference, if there is one.
pub open spec fn context_of(cpi_context: Option<&CompressedCpiContext>) -> Option<
    CompressedCpiContext,
> {
    match cpi_context {
        Some(c) => Some(*c),
        None => None,
    }
}

/// The bytes of the transfer call that decompresses the given accounts,
/// all of what they hold or only the amounts asked for.
pub fn decompress_token_instruction_data(
    mint: &Address,
    validity_proof: &Option<CompressedProof>,
    owner: &Address,
    compressed_token_accounts: Vec<InputTokenDataWithContext>,
    cpi_context: Option<&CompressedCpiContext>,
    decompress_amount: Option<u64>,
    decompress_lamports: Option<u64>,
) -> (data: Vec<u8>)
    requires
        decompress_inputs_valid(compressed_token_accounts@, decompress_amount, decompress_lamports),
    ensures
        data@ == decompress_instruction_data(
            *mint,
            *validity_proof,
            *owner,
            compressed_token_accounts@,
            context_of(cpi_context),
            decompress_amount,
            decompress_lamports,
        ),
{
    let (total_amount, total_lamports) = totals(&compressed_token_accounts);
    let amount_to_decompress = match decompress_amount {
        Some(a) => a,
        None => total_amount,
    };
    let lamports_to_decompress = match decompress_lamports {
        Some(l) => l,
        None => total_lamports,
    };
    let mut output_compressed_accounts: Vec<PackedTokenTransferOutputData> = Vec::new();
    if amount_to_decompress < total_amount {
        proof {
            lemma_totals_nonnegative(compressed_token_accounts@);
        }
        let kept = total_lamports - lamports_to_decompress;
        let output = PackedTokenTransferOutputData {
            owner: *owner,
            amount: total_amount - amount_to_decompress,
            lamports: if kept > 0 {
                Some(kept)
            } else {
                None
            },
            merkle_tree_index: compressed_token_accounts[0].merkle_context.merkle_tree_pubkey_index,
        };
        output_compressed_accounts.push(output);
    }
    assert(output_compressed_accounts@ =~= change_outputs(
        *owner,
        compressed_token_accounts@,
        decompress_amount,
        decompress_lamports,
    ));
    let context = match cpi_context {
        Some(c) => Some(*c),
        None => None,
    };
    let serialized_data = write_transfer_payload(
        validity_proof,
        mint,
        &compressed_token_accounts,
        &output_compressed_accounts,
        Some(amount_to_decompress),
        &context,
    );
    frame_transfer(&serialized_data)
}

/// What the transfer call asks of the account at the given place in its
/// list: the fee payer, first, signs and is written to; the authority,
/// second, signs; the token pool and the destination, tenth and eleventh,
/// are written to; the other fixed accounts are only read; and every tree
/// and queue account, from the fourteenth on, is written to.
pub open spec fn position_meta(i: int, account: Account) -> AccountMeta {
    AccountMeta {
        pubkey: account.key,
        is_signer: i == 0 || i == 1,
        is_writable: i == 0 || i == 9 || i == 10 || i >= BASE_CPI_ACCOUNT_COUNT,
    }
}

/// What the transfer call asks of its accounts, in the order in which it
/// lists them.
pub open spec fn decompress_metas(all: Seq<Account>) -> Seq<AccountMeta> {
    Seq::new(all.len(), |i: int| position_meta(i, all[i]))
}

/// The transfer call that decompresses all that the given accounts hold.
pub fn decompress(
    mint: &Address,
    owner: &Address,
    compressed_token_accounts: Vec<InputTokenDataWithContext>,
    validity_proof: &Option<CompressedProof>,
    light_cpi_accounts: &CompressedTokenDecompressCpiAccounts,
    cpi_context: Option<&CompressedCpiContext>,
) -> (r: Result<Instruction, CustomError>)
    requires
        decompress_inputs_valid(compressed_token_accounts@, None, None),
    ensures
        r matches Ok(instruction) && {
            &&& instruction.program_id == light_cpi_accounts.self_program.key
            &&& instruction.accounts@ == decompress_metas(light_cpi_accounts.all())
            &&& instruction.data@ == decompress_instruction_data(
                *mint,
                *validity_proof,
                *owner,
                compressed_token_accounts@,
                context_of(cpi_context),
                None,
                None,
            )
        },
{
    decompress_with_amounts(
        mint,
        owner,
        compressed_token_accounts,
        validity_proof,
        light_cpi_accounts,
        cpi_context,
        None,
        None,
    )
}

/// The transfer call that decompresses the given accounts, all of what they
/// hold or only the amounts asked for.
pub fn decompress_with_amounts(
    mint: &Address,
    owner: &Address,
    compressed_token_accounts: Vec<InputTokenDataWithContext>,
    validity_proof: &Option<CompressedProof>,
    light_cpi_accounts: &CompressedTokenDecompressCpiAccounts,
    cpi_context: Option<&CompressedCpiContext>,
    decompress_amount: Option<u64>,
    decompress_lamports: Option<u64>,
) -> (r: Result<Instruction, CustomError>)
    requires
        decompress_inputs_valid(compressed_token_accounts@, decompress_amount, decompress_lamports),
    ensures
        r matches Ok(instruction) && {
            &&& instruction.program_id == light_cpi_accounts.self_program.key
            &&& instruction.accounts@ == decompress_metas(light_cpi_accounts.all())
            &&& instruction.data@ == decompress_instruction_data(
                *mint,
                *validity_proof,
                *owner,
                compressed_token_accounts@,
                context_of(cpi_context),
                decompress_amount,
                decompress_lamports,
            )
        },
{
    let ghost inputs = compressed_token_accounts@;
    let data = decompress_token_instruction_data(
        mint,
        validity_proof,
        owner,
        compressed_token_accounts,
        cpi_context,
        decompress_amount,
        decompress_lamports,
    );
    let mut accounts = vec![
        AccountMeta::new(light_cpi_accounts.fee_payer.key, true),
        AccountMeta::new_readonly(light_cpi_accounts.authority.key, true),
        AccountMeta::new_readonly(light_cpi_accounts.cpi_authority_pda.key, false),
        AccountMeta::new_readonly(light_cpi_accounts.light_system_program.key, false),
        AccountMeta::new_readonly(light_cpi_accounts.registered_program_pda.key, false),
        AccountMeta::new_readonly(light_cpi_accounts.noop_program.key, false),
        AccountMeta::new_readonly(light_cpi_accounts.account_compression_authority.key, false),
        AccountMeta::new_readonly(light_cpi_accounts.account_compression_program.key, false),
        AccountMeta::new_readonly(light_cpi_accounts.self_program.key, false),
        AccountMeta::new(light_cpi_accounts.token_pool_pda.key, false),
        AccountMeta::new(light_cpi_accounts.decompress_destination.key, false),
        AccountMeta::new_readonly(light_cpi_accounts.token_program.key, false),
        AccountMeta::new_readonly(light_cpi_accounts.system_program.key, false),
    ];
    let ghost all = light_cpi_accounts.all();
    assert(accounts@ =~= decompress_metas(all.subrange(0, BASE_CPI_ACCOUNT_COUNT as int)));
    let mut i: usize = 0;
    while i < light_cpi_accounts.tree_and_queue_accounts.len()
        invariant
            i <= light_cpi_accounts.tree_and_queue_accounts.len(),
            all == light_cpi_accounts.all(),
            accounts@ == decompress_metas(all.subrange(0, BASE_CPI_ACCOUNT_COUNT + i)),
        decreases light_cpi_accounts.tree_and_queue_accounts.len() - i,
    {
        accounts.push(AccountMeta::new(light_cpi_accounts.tree_and_queue_accounts[i].key, false));
        assert(accounts@ =~= decompress_metas(all.subrange(0, BASE_CPI_ACCOUNT_COUNT + i + 1)));
        i += 1;
    }
    assert(all.subrange(0, all.len() as int) =~= all);
    Ok(Instruction { program_id: light_cpi_accounts.self_program.key, accounts, data })
}

} // verus!
