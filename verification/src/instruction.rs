//! The claim request: what it holds and how it is laid out in bytes.
use vstd::prelude::*;
use vstd::bytes::{spec_u16_to_le_bytes, spec_u64_to_le_bytes};
use crate::account::{AccountMeta, Instruction};
use crate::address::{id, Address, PROGRAM_ID};
use crate::error::CustomError;
use crate::token::{option_proof_bytes, put_option_proof, CompressedProof, PackedMerkleContext};
use crate::wire::{
    flag_byte, lemma_int_bytes, option_u64_bytes, put_bytes, put_option_u64, put_u16, put_u64,
    put_u8, read_array, read_u16, read_u32, read_u64,
};

verus! {

/// What a caller may ask of this program.
#[derive(Clone, Copy, Debug, PartialEq, Eq)]
pub enum ClaimProgramInstruction {
    /// Release the tokens held for the claimant under the address derived
    /// from the claimant, the mint, the unlock slot and the bump seed.
    ClaimAndDecompress {
        proof: Option<CompressedProof>,
        root_index: u16,
        merkle_context: PackedMerkleContext,
        amount: u64,
        lamports: Option<u64>,
        mint: Address,
        unlock_slot: u64,
        bump_seed: u8,
    },
}

impl ClaimProgramInstruction {
    /// The request in bytes: the tag of its kind, then its fields in order.
    pub open spec fn bytes(self) -> Seq<u8> {
        seq![0u8] + option_proof_bytes(self->proof) + spec_u16_to_le_bytes(self->root_index)
            + self->merkle_context.bytes() + spec_u64_to_le_bytes(self->amount) + option_u64_bytes(
            self->lamports,
        ) + self->mint@ + spec_u64_to_le_bytes(self->unlock_slot) + seq![self->bump_seed]
    }

    /// Writes the request in bytes.
    pub fn to_vec(&self) -> (out: Vec<u8>)
        ensures
            out@ == self.bytes(),
    {
        let mut out: Vec<u8> = Vec::new();
        match self {
            ClaimProgramInstruction::ClaimAndDecompress {
                proof: validity_proof,
                root_index,
                merkle_context,
                amount,
                lamports,
                mint,
                unlock_slot,
                bump_seed,
            } => {
                put_u8(&mut out, 0);
                put_option_proof(&mut out, validity_proof);
                put_u16(&mut out, *root_index);
                merkle_context.write(&mut out);
                put_u64(&mut out, *amount);
                put_option_u64(&mut out, *lamports);
                put_bytes(&mut out, mint.bytes.as_slice());
                put_u64(&mut out, *unlock_slot);
                put_u8(&mut out, *bump_seed);
            },
        }
        assert(out@ =~= self.bytes());
        out
    }
}

/// How many bytes an optional proof takes behind its flag.
pub open spec fn proof_width(validity_proof: Option<CompressedProof>) -> int {
    if validity_proof is Some {
        128
    } else {
        0
    }
}

/// How many bytes an optional amount of lamports takes behind its flag.
pub open spec fn lamports_width(lamports: Option<u64>) -> int {
    if lamports is Some {
        8
    } else {
        0
    }
}

/// Where each field of a request stands in its bytes.
pub proof fn lemma_layout(x: ClaimProgramInstruction)
    ensures
        ({
            let e = x.bytes();
            let p = proof_width(x->proof);
            let l = lamports_width(x->lamports);
            &&& e.len() == 61 + p + l
            &&& e[0] == 0
            &&& e[1] == flag_byte(x->proof is Some)
            &&& x->proof matches Some(v) ==> {
                &&& e.subrange(2, 34) == v.a@
                &&& e.subrange(34, 98) == v.b@
                &&& e.subrange(98, 130) == v.c@
            }
            &&& e.subrange(2 + p, 4 + p) == spec_u16_to_le_bytes(x->root_index)
            &&& e[4 + p] == x->merkle_context.merkle_tree_pubkey_index
            &&& e[5 + p] == x->merkle_context.queue_pubkey_index
            &&& e.subrange(6 + p, 10 + p) == vstd::bytes::spec_u32_to_le_bytes(
                x->merkle_context.leaf_index,
            )
            &&& e[10 + p] == flag_byte(x->merkle_context.prove_by_index)
            &&& e.subrange(11 + p, 19 + p) == spec_u64_to_le_bytes(x->amount)
            &&& e[19 + p] == flag_byte(x->lamports is Some)
            &&& x->lamports matches Some(v) ==> e.subrange(20 + p, 28 + p) == spec_u64_to_le_bytes(
                v,
            )
            &&& e.subrange(20 + p + l, 52 + p + l) == x->mint@
            &&& e.subrange(52 + p + l, 60 + p + l) == spec_u64_to_le_bytes(x->unlock_slot)
            &&& e[60 + p + l] == x->bump_seed
        }),
{
    lemma_int_bytes();
    let e = x.bytes();
    let p = proof_width(x->proof);
    let l = lamports_width(x->lamports);
    let head = seq![0u8] + option_proof_bytes(x->proof);
    assert(head.len() == 2 + p);
    let with_root = head + spec_u16_to_le_bytes(x->root_index);
    assert(with_root.len() == 4 + p);
    let with_context = with_root + x->merkle_context.bytes();
    assert(with_context.len() == 11 + p);
    let with_amount = with_context + spec_u64_to_le_bytes(x->amount);
    assert(with_amount.len() == 19 + p);
    let with_lamports = with_amount + option_u64_bytes(x->lamports);
    assert(with_lamports.len() == 20 + p + l);
    let with_mint = with_lamports + x->mint@;
    assert(with_mint.len() == 52 + p + l);
    let with_slot = with_mint + spec_u64_to_le_bytes(x->unlock_slot);
    assert(with_slot.len() == 60 + p + l);
    assert(e == with_slot + seq![x->bump_seed]);
    if let Some(v) = x->proof {
        assert(e.subrange(2, 34) =~= v.a@);
        assert(e.subrange(34, 98) =~= v.b@);
        assert(e.subrange(98, 130) =~= v.c@);
    }
    assert(e.subrange(2 + p, 4 + p) =~= spec_u16_to_le_bytes(x->root_index));
    assert(e.subrange(6 + p, 10 + p) =~= vstd::bytes::spec_u32_to_le_bytes(
        x->merkle_context.leaf_index,
    ));
    assert(e.subrange(11 + p, 19 + p) =~= spec_u64_to_le_bytes(x->amount));
    if let Some(v) = x->lamports {
        assert(e.subrange(20 + p, 28 + p) =~= spec_u64_to_le_bytes(v));
    }
    assert(e.subrange(20 + p + l, 52 + p + l) =~= x->mint@);
    assert(e.subrange(52 + p + l, 60 + p + l) =~= spec_u64_to_le_bytes(x->unlock_slot));
}

/// Two requests with the same bytes are the same request.
pub proof fn lemma_bytes_injective(x: ClaimProgramInstruction, y: ClaimProgramInstruction)
    requires
        x.bytes() == y.bytes(),
    ensures
        x == y,
{
    lemma_layout(x);
    lemma_layout(y);
    lemma_int_bytes();
    let p = proof_width(x->proof);
    let l = lamports_width(x->lamports);
    assert(proof_width(y->proof) == p);
    assert(lamports_width(y->lamports) == l);
    if let Some(v) = x->proof {
        let w = y->proof->0;
        assert(v.a =~= w.a);
        assert(v.b =~= w.b);
        assert(v.c =~= w.c);
        assert(v == w);
    }
    assert(x->proof == y->proof);
    assert(x->mint.bytes =~= y->mint.bytes);
    assert(x->mint == y->mint);
    assert(x->merkle_context == y->merkle_context);
    assert(x->lamports == y->lamports);
}

/// The request that the given bytes stand for, if they stand for one.
pub open spec fn decoded(data: Seq<u8>) -> Option<ClaimProgramInstruction> {
    if exists|x: ClaimProgramInstruction| #[trigger] x.bytes() == data {
        Some(choose|x: ClaimProgramInstruction| #[trigger] x.bytes() == data)
    } else {
        None
    }
}

/// Reading back the bytes of a request gives that request.
pub proof fn lemma_round_trip(x: ClaimProgramInstruction)
    ensures
        decoded(x.bytes()) == Some(x),
{
    let y = choose|y: ClaimProgramInstruction| #[trigger] y.bytes() == x.bytes();
    lemma_bytes_injective(x, y);
}

impl ClaimProgramInstruction {
    /// Reads a request from bytes.
    ///
    /// The bytes must be those of one request from first to last: a wrong
    /// tag, a flag that is neither 0 nor 1, a missing byte or a byte too
    /// many makes them malformed.
    pub fn try_from_slice(data: &[u8]) -> (r: Result<ClaimProgramInstruction, CustomError>)
        ensures
            match r {
                Ok(x) => x.bytes() == data@,
                Err(e) => e == CustomError::MalformedRequest && forall|
                    x: ClaimProgramInstruction,
                | #[trigger] x.bytes() != data@,
            },
            r == match decoded(data@) {
                Some(x) => Ok::<ClaimProgramInstruction, CustomError>(x),
                None => Err(CustomError::MalformedRequest),
            },
    {
        let n = data.len();
        if n < 2 || data[0] != 0 || data[1] > 1 {
            proof {
                assert forall|x: ClaimProgramInstruction| #[trigger] x.bytes() != data@ by {
                    lemma_layout(x);
                }
            }
            return Err(CustomError::MalformedRequest);
        }
        let p: usize = if data[1] == 1 {
            128
        } else {
            0
        };
        if n < 20 + p || data[10 + p] > 1 || data[19 + p] > 1 {
            proof {
                assert forall|x: ClaimProgramInstruction| #[trigger] x.bytes() != data@ by {
                    lemma_layout(x);
                }
            }
            return Err(CustomError::MalformedRequest);
        }
        let l: usize = if data[19 + p] == 1 {
            8
        } else {
            0
        };
        if n != 61 + p + l {
            proof {
                assert forall|x: ClaimProgramInstruction| #[trigger] x.bytes() != data@ by {
                    lemma_layout(x);
                }
            }
            return Err(CustomError::MalformedRequest);
        }
        let validity_proof = if p == 128 {
            Some(
                CompressedProof {
                    a: read_array::<32>(data, 2),
                    b: read_array::<64>(data, 34),
                    c: read_array::<32>(data, 98),
                },
            )
        } else {
            None
        };
        let root_index = read_u16(data, 2 + p);
        let merkle_context = PackedMerkleContext {
            merkle_tree_pubkey_index: data[4 + p],
            queue_pubkey_index: data[5 + p],
            leaf_index: read_u32(data, 6 + p),
            prove_by_index: data[10 + p] == 1,
        };
        let amount = read_u64(data, 11 + p);
        let lamports = if l == 8 {
            Some(read_u64(data, 20 + p))
        } else {
            None
        };
        let mint = Address { bytes: read_array::<32>(data, 20 + p + l) };
        let unlock_slot = read_u64(data, 52 + p + l);
        let bump_seed = data[60 + p + l];
        let x = ClaimProgramInstruction::ClaimAndDecompress {
            proof: validity_proof,
            root_index,
            merkle_context,
            amount,
            lamports,
            mint,
            unlock_slot,
            bump_seed,
        };
        proof {
            lemma_layout(x);
            lemma_int_bytes();
            let e = x.bytes();
            assert(e.len() == data@.len());
            assert forall|i: int| 0 <= i < e.len() implies e[i] == data@[i] by {
                lemma_same_at(e, data@, 2, 34, i);
                lemma_same_at(e, data@, 34, 98, i);
                lemma_same_at(e, data@, 98, 130, i);
                lemma_same_at(e, data@, 2 + p, 4 + p, i);
                lemma_same_at(e, data@, 6 + p, 10 + p, i);
                lemma_same_at(e, data@, 11 + p, 19 + p, i);
                lemma_same_at(e, data@, 20 + p, 28 + p, i);
                lemma_same_at(e, data@, 20 + p + l, 52 + p + l, i);
                lemma_same_at(e, data@, 52 + p + l, 60 + p + l, i);
            }
            assert(e =~= data@);
            lemma_round_trip(x);
        }
        Ok(x)
    }
}

/// Two sequences that agree on a range agree at each place in it.
pub proof fn lemma_same_at(s: Seq<u8>, t: Seq<u8>, lo: int, hi: int, i: int)
    ensures
        0 <= lo <= i < hi <= s.len() && hi <= t.len() && s.subrange(lo, hi) == t.subrange(lo, hi)
            ==> s[i] == t[i],
{
    if 0 <= lo <= i < hi <= s.len() && hi <= t.len() && s.subrange(lo, hi) == t.subrange(lo, hi) {
        assert(s.subrange(lo, hi)[i - lo] == s[i]);
        assert(t.subrange(lo, hi)[i - lo] == t[i]);
    }
}

/// The accounts of a claim, by what they are for.
#[derive(Clone, Copy, Debug, PartialEq, Eq)]
pub struct ClaimAccounts {
    pub claimant: Address,
    pub fee_payer: Address,
    pub associated_airdrop_pda: Address,
    pub ctoken_cpi_authority_pda: Address,
    pub light_system_program: Address,
    pub registered_program_pda: Address,
    pub noop_program: Address,
    pub account_compression_authority: Address,
    pub account_compression_program: Address,
    pub ctoken_program: Address,
    pub token_pool_pda: Address,
    pub decompress_destination: Address,
    pub token_program: Address,
    pub system_program: Address,
    pub state_tree: Address,
    pub queue: Address,
}

impl ClaimAccounts {
    /// The addresses in the order in which a claim lists them.
    pub open spec fn addresses(self) -> Seq<Address> {
        seq![
            self.claimant,
            self.fee_payer,
            self.associated_airdrop_pda,
            self.ctoken_cpi_authority_pda,
            self.light_system_program,
            self.registered_program_pda,
            self.noop_program,
            self.account_compression_authority,
            self.account_compression_program,
            self.ctoken_program,
            self.token_pool_pda,
            self.decompress_destination,
            self.token_program,
            self.system_program,
            self.state_tree,
            self.queue,
        ]
    }
}

/// What a claim asks of the account at the given place in its list: the
/// claimant and the fee payer, first and second, sign and are written to;
/// the token pool, the destination, the state tree and the queue are
/// written to; the others are only read.
pub open spec fn claim_meta(i: int, pubkey: Address) -> AccountMeta {
    AccountMeta {
        pubkey,
        is_signer: i == 0 || i == 1,
        is_writable: i == 0 || i == 1 || i == 10 || i == 11 || i == 14 || i == 15,
    }
}

/// What a claim asks of its accounts, in the order in which it lists them.
pub open spec fn claim_metas(accounts: ClaimAccounts) -> Seq<AccountMeta> {
    Seq::new(16, |i: int| claim_meta(i, accounts.addresses()[i]))
}

/// Builds the instruction by which a client makes a claim.
///
/// Accounts of the instruction:
///
///   0. `[signer, writable]` Claimant
///   1. `[signer, writable]` Fee payer
///   2. `[]` Associated airdrop PDA
///   3. `[]` CToken CPI authority PDA
///   4. `[]` Light system program
///   5. `[]` Registered program PDA
///   6. `[]` Noop program
///   7. `[]` Account compression authority
///   8. `[]` Account compression program
///   9. `[]` CToken program
///  10. `[writable]` Token pool PDA
///  11. `[writable]` Decompress destination
///  12. `[]` Token program
///  13. `[]` System program
///  14. `[writable]` State tree
///  15. `[writable]` Queue
pub fn build_claim_and_decompress_instruction(
    accounts: &ClaimAccounts,
    validity_proof: Option<CompressedProof>,
    root_index: u16,
    merkle_context: PackedMerkleContext,
    amount: u64,
    lamports: Option<u64>,
    mint: Address,
    unlock_slot: u64,
    bump_seed: u8,
) -> (r: Instruction)
    ensures
        r.program_id.bytes == PROGRAM_ID,
        r.accounts@ == claim_metas(*accounts),
        r.data@ == (ClaimProgramInstruction::ClaimAndDecompress {
            proof: validity_proof,
            root_index,
            merkle_context,
            amount,
            lamports,
            mint,
            unlock_slot,
            bump_seed,
        }).bytes(),
{
    let metas = vec![
        AccountMeta::new(accounts.claimant, true),
        AccountMeta::new(accounts.fee_payer, true),
        AccountMeta::new_readonly(accounts.associated_airdrop_pda, false),
        AccountMeta::new_readonly(accounts.ctoken_cpi_authority_pda, false),
        AccountMeta::new_readonly(accounts.light_system_program, false),
        AccountMeta::new_readonly(accounts.registered_program_pda, false),
        AccountMeta::new_readonly(accounts.noop_program, false),
        AccountMeta::new_readonly(accounts.account_compression_authority, false),
        AccountMeta::new_readonly(accounts.account_compression_program, false),
        AccountMeta::new_readonly(accounts.ctoken_program, false),
        AccountMeta::new(accounts.token_pool_pda, false),
        AccountMeta::new(accounts.decompress_destination, false),
        AccountMeta::new_readonly(accounts.token_program, false),
        AccountMeta::new_readonly(accounts.system_program, false),
        AccountMeta::new(accounts.state_tree, false),
        AccountMeta::new(accounts.queue, false),
    ];
    assert(metas@ =~= claim_metas(*accounts));
    let instruction_data = ClaimProgramInstruction::ClaimAndDecompress {
        proof: validity_proof,
        root_index,
        merkle_context,
        amount,
        lamports,
        mint,
        unlock_slot,
        bump_seed,
    };
    Instruction { program_id: id(), accounts: metas, data: instruction_data.to_vec() }
}

} // verus!
