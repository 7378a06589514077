//! The values that travel to the compressed token program, and the byte
//! layout in which that program reads them.
use vstd::prelude::*;
use vstd::bytes::{spec_u16_to_le_bytes, spec_u32_to_le_bytes, spec_u64_to_le_bytes};
use crate::address::Address;
use crate::wire::{
    flag_byte, option_u64_bytes, put_bool, put_bytes, put_option_u64, put_u16, put_u32, put_u64,
    put_u8,
};

verus! {

/// A validity proof for the compressed accounts that a call spends.
#[derive(Clone, Copy, Debug, PartialEq, Eq)]
pub struct CompressedProof {
    pub a: [u8; 32],
    pub b: [u8; 64],
    pub c: [u8; 32],
}

impl CompressedProof {
    /// The three parts of the proof, one after the other.
    pub open spec fn bytes(self) -> Seq<u8> {
        self.a@ + self.b@ + self.c@
    }

    /// Appends the proof to `out`.
    pub fn write(&self, out: &mut Vec<u8>)
        ensures
            final(out)@ == old(out)@ + self.bytes(),
    {
        put_bytes(out, self.a.as_slice());
        put_bytes(out, self.b.as_slice());
        put_bytes(out, self.c.as_slice());
        assert(out@ =~= old(out)@ + self.bytes());
    }
}

/// An optional proof: a presence flag, then the proof if there is one.
pub open spec fn option_proof_bytes(validity_proof: Option<CompressedProof>) -> Seq<u8> {
    match validity_proof {
        None => seq![0u8],
        Some(p) => seq![1u8] + p.bytes(),
    }
}

/// Appends an optional proof to `out`.
pub fn put_option_proof(out: &mut Vec<u8>, validity_proof: &Option<CompressedProof>)
    ensures
        final(out)@ == old(out)@ + option_proof_bytes(*validity_proof),
{
    match validity_proof {
        None => {
            put_u8(out, 0);
        },
        Some(p) => {
            put_u8(out, 1);
            p.write(out);
            assert(out@ =~= old(out)@ + (seq![1u8] + p.bytes()));
        },
    }
}

/// Where a compressed account sits: the positions of its state tree and of
/// its queue among the tree accounts of the call, and its leaf.
#[derive(Clone, Copy, Debug, PartialEq, Eq, Structural)]
pub struct PackedMerkleContext {
    pub merkle_tree_pubkey_index: u8,
    pub queue_pubkey_index: u8,
    pub leaf_index: u32,
    pub prove_by_index: bool,
}

impl PackedMerkleContext {
    /// The seven bytes of a merkle context.
    pub open spec fn bytes(self) -> Seq<u8> {
        seq![self.merkle_tree_pubkey_index, self.queue_pubkey_index] + spec_u32_to_le_bytes(
            self.leaf_index,
        ) + seq![flag_byte(self.prove_by_index)]
    }

    /// Appends the merkle context to `out`.
    pub fn write(&self, out: &mut Vec<u8>)
        ensures
            final(out)@ == old(out)@ + self.bytes(),
    {
        put_u8(out, self.merkle_tree_pubkey_index);
        put_u8(out, self.queue_pubkey_index);
        put_u32(out, self.leaf_index);
        put_bool(out, self.prove_by_index);
        assert(out@ =~= old(out)@ + self.bytes());
    }
}

impl Default for PackedMerkleContext {
    fn default() -> (r: PackedMerkleContext)
        ensures
            r == (PackedMerkleContext {
                merkle_tree_pubkey_index: 0,
                queue_pubkey_index: 0,
                leaf_index: 0,
                prove_by_index: false,
            }),
    {
        PackedMerkleContext {
            merkle_tree_pubkey_index: 0,
            queue_pubkey_index: 0,
            leaf_index: 0,
            prove_by_index: false,
        }
    }
}

/// How a call takes part in a context shared between programs.
#[derive(Clone, Copy, Debug, PartialEq, Eq, Structural)]
pub struct CompressedCpiContext {
    pub set_context: bool,
    pub first_set_context: bool,
    pub cpi_context_account_index: u8,
}

/// An optional shared context: a presence flag, then its three bytes.
pub open spec fn option_cpi_context_bytes(context: Option<CompressedCpiContext>) -> Seq<u8> {
    match context {
        None => seq![0u8],
        Some(c) => seq![
            1u8,
            flag_byte(c.set_context),
            flag_byte(c.first_set_context),
            c.cpi_context_account_index,
        ],
    }
}

/// Appends an optional shared context to `out`.
pub fn put_option_cpi_context(out: &mut Vec<u8>, context: &Option<CompressedCpiContext>)
    ensures
        final(out)@ == old(out)@ + option_cpi_context_bytes(*context),
{
    match context {
        None => {
            put_u8(out, 0);
        },
        Some(c) => {
            put_u8(out, 1);
            put_bool(out, c.set_context);
            put_bool(out, c.first_set_context);
            put_u8(out, c.cpi_context_account_index);
            assert(out@ =~= old(out)@ + option_cpi_context_bytes(*context));
        },
    }
}

/// One compressed token account that a call spends.
#[derive(Clone, Debug, PartialEq, Eq)]
pub struct InputTokenDataWithContext {
    pub amount: u64,
    pub delegate_index: Option<u8>,
    pub merkle_context: PackedMerkleContext,
    pub root_index: u16,
    pub lamports: Option<u64>,
    pub tlv: Option<Vec<u8>>,
}

/// An optional byte: a presence flag, then the byte if there is one.
pub open spec fn option_u8_bytes(x: Option<u8>) -> Seq<u8> {
    match x {
        None => seq![0u8],
        Some(v) => seq![1u8, v],
    }
}

/// An optional byte string: a presence flag, then its length in four bytes
/// and its content if there is one.
pub open spec fn option_blob_bytes(x: Option<Vec<u8>>) -> Seq<u8> {
    match x {
        None => seq![0u8],
        Some(v) => seq![1u8] + spec_u32_to_le_bytes(v@.len() as u32) + v@,
    }
}

impl InputTokenDataWithContext {
    /// The record of one spent account.
    pub open spec fn bytes(self) -> Seq<u8> {
        spec_u64_to_le_bytes(self.amount) + option_u8_bytes(self.delegate_index)
            + self.merkle_context.bytes() + spec_u16_to_le_bytes(self.root_index)
            + option_u64_bytes(self.lamports) + option_blob_bytes(self.tlv)
    }

    /// Whether the record can be written: its extension data, if any, has a
    /// length that four bytes can hold.
    pub open spec fn writable(self) -> bool {
        self.tlv matches Some(v) ==> v@.len() <= u32::MAX
    }

    /// Appends the record to `out`.
    pub fn write(&self, out: &mut Vec<u8>)
        requires
            self.writable(),
        ensures
            final(out)@ == old(out)@ + self.bytes(),
    {
        put_u64(out, self.amount);
        match self.delegate_index {
            None => {
                put_u8(out, 0);
            },
            Some(v) => {
                put_u8(out, 1);
                put_u8(out, v);
            },
        }
        assert(out@ =~= old(out)@ + spec_u64_to_le_bytes(self.amount) + option_u8_bytes(
            self.delegate_index,
        ));
        self.merkle_context.write(out);
        put_u16(out, self.root_index);
        put_option_u64(out, self.lamports);
        let ghost before = out@;
        match &self.tlv {
            None => {
                put_u8(out, 0);
            },
            Some(v) => {
                put_u8(out, 1);
                put_u32(out, v.len() as u32);
                put_bytes(out, v.as_slice());
                assert(out@ =~= before + option_blob_bytes(self.tlv));
            },
        }
    }
}

/// The token account of a new owner that a call creates.
#[derive(Clone, Copy, Debug, PartialEq, Eq)]
pub struct PackedTokenTransferOutputData {
    pub owner: Address,
    pub amount: u64,
    pub lamports: Option<u64>,
    pub merkle_tree_index: u8,
}

impl PackedTokenTransferOutputData {
    /// The record of one created account; it carries no extension data.
    pub open spec fn bytes(self) -> Seq<u8> {
        self.owner@ + spec_u64_to_le_bytes(self.amount) + option_u64_bytes(self.lamports)
            + seq![self.merkle_tree_index, 0u8]
    }

    /// Appends the record to `out`.
    pub fn write(&self, out: &mut Vec<u8>)
        ensures
            final(out)@ == old(out)@ + self.bytes(),
    {
        put_bytes(out, self.owner.bytes.as_slice());
        put_u64(out, self.amount);
        put_option_u64(out, self.lamports);
        put_u8(out, self.merkle_tree_index);
        put_u8(out, 0);
        assert(out@ =~= old(out)@ + self.bytes());
    }
}

/// The records of the spent accounts, in order.
pub open spec fn input_records(inputs: Seq<InputTokenDataWithContext>) -> Seq<u8>
    decreases inputs.len(),
{
    if inputs.len() == 0 {
        Seq::empty()
    } else {
        input_records(inputs.drop_last()) + inputs.last().bytes()
    }
}

/// The records of the created accounts, in order.
pub open spec fn output_records(outputs: Seq<PackedTokenTransferOutputData>) -> Seq<u8>
    decreases outputs.len(),
{
    if outputs.len() == 0 {
        Seq::empty()
    } else {
        output_records(outputs.drop_last()) + outputs.last().bytes()
    }
}

/// The body of a transfer call that takes tokens out of compression: proof,
/// mint, no delegated transfer, the spent and the created accounts (each
/// list behind its length), the decompress marker, the amount, the shared
/// context, no change account for lamports and no transaction hash.
pub open spec fn transfer_payload(
    validity_proof: Option<CompressedProof>,
    mint: Address,
    inputs: Seq<InputTokenDataWithContext>,
    outputs: Seq<PackedTokenTransferOutputData>,
    amount: Option<u64>,
    cpi_context: Option<CompressedCpiContext>,
) -> Seq<u8> {
    option_proof_bytes(validity_proof) + mint@ + seq![0u8] + spec_u32_to_le_bytes(inputs.len() as u32)
        + input_records(inputs) + spec_u32_to_le_bytes(outputs.len() as u32) + output_records(
        outputs,
    ) + seq![0u8] + option_u64_bytes(amount) + option_cpi_context_bytes(cpi_context) + seq![
        0u8,
        0u8,
    ]
}

/// Whether every spent account can be written.
pub open spec fn all_writable(inputs: Seq<InputTokenDataWithContext>) -> bool {
    forall|i: int| 0 <= i < inputs.len() ==> (#[trigger] inputs[i]).writable()
}

/// Writes the body of a transfer call that takes tokens out of compression.
pub fn write_transfer_payload(
    validity_proof: &Option<CompressedProof>,
    mint: &Address,
    inputs: &Vec<InputTokenDataWithContext>,
    outputs: &Vec<PackedTokenTransferOutputData>,
    amount: Option<u64>,
    cpi_context: &Option<CompressedCpiContext>,
) -> (out: Vec<u8>)
    requires
        inputs.len() <= u32::MAX,
        outputs.len() <= u32::MAX,
        all_writable(inputs@),
    ensures
        out@ == transfer_payload(*validity_proof, *mint, inputs@, outputs@, amount, *cpi_context),
{
    let mut out: Vec<u8> = Vec::new();
    put_option_proof(&mut out, validity_proof);
    put_bytes(&mut out, mint.bytes.as_slice());
    put_u8(&mut out, 0);
    put_u32(&mut out, inputs.len() as u32);
    let ghost head = out@;
    assert(head =~= option_proof_bytes(*validity_proof) + mint@ + seq![0u8] + spec_u32_to_le_bytes(
        inputs.len() as u32,
    ));
    let mut i: usize = 0;
    while i < inputs.len()
        invariant
            i <= inputs.len(),
            all_writable(inputs@),
            out@ == head + input_records(inputs@.subrange(0, i as int)),
        decreases inputs.len() - i,
    {
        inputs[i].write(&mut out);
        assert(inputs@.subrange(0, i + 1).drop_last() =~= inputs@.subrange(0, i as int));
        assert(out@ =~= head + input_records(inputs@.subrange(0, i + 1)));
        i += 1;
    }
    assert(inputs@.subrange(0, inputs.len() as int) =~= inputs@);
    put_u32(&mut out, outputs.len() as u32);
    let ghost middle = out@;
    let mut j: usize = 0;
    while j < outputs.len()
        invariant
            j <= outputs.len(),
            out@ == middle + output_records(outputs@.subrange(0, j as int)),
        decreases outputs.len() - j,
    {
        outputs[j].write(&mut out);
        assert(outputs@.subrange(0, j + 1).drop_last() =~= outputs@.subrange(0, j as int));
        assert(out@ =~= middle + output_records(outputs@.subrange(0, j + 1)));
        j += 1;
    }
    assert(outputs@.subrange(0, outputs.len() as int) =~= outputs@);
    let ghost body = out@;
    put_u8(&mut out, 0);
    put_option_u64(&mut out, amount);
    put_option_cpi_context(&mut out, cpi_context);
    put_u8(&mut out, 0);
    put_u8(&mut out, 0);
    assert(out@ =~= body + seq![0u8] + option_u64_bytes(amount) + option_cpi_context_bytes(
        *cpi_context,
    ) + seq![0u8, 0u8]);
    out
}

} // verus!
