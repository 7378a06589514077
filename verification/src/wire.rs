//! Little-endian byte framing shared by the claim request and the transfer
//! payload: fixed-width integers, one-byte flags and optional values.
use vstd::prelude::*;
use vstd::bytes::{
    lemma_auto_spec_u16_to_from_le_bytes, lemma_auto_spec_u32_to_from_le_bytes,
    lemma_auto_spec_u64_to_from_le_bytes, spec_u16_to_le_bytes, spec_u32_to_le_bytes,
    spec_u64_to_le_bytes, u16_from_le_bytes, u16_to_le_bytes, u32_from_le_bytes,
    u32_to_le_bytes, u64_from_le_bytes, u64_to_le_bytes,
};
use vstd::slice::slice_subrange;

verus! {

/// The byte that stands for a truth value, or for the presence of an
/// optional value.
pub open spec fn flag_byte(b: bool) -> u8 {
    if b {
        1
    } else {
        0
    }
}

/// An optional 64-bit integer: a presence flag, then the value if there is
/// one.
pub open spec fn option_u64_bytes(x: Option<u64>) -> Seq<u8> {
    match x {
        None => seq![0u8],
        Some(v) => seq![1u8] + spec_u64_to_le_bytes(v),
    }
}

/// How many bytes an optional 64-bit integer takes.
pub open spec fn option_u64_len(x: Option<u64>) -> int {
    if x is Some {
        9
    } else {
        1
    }
}

/// The little-endian forms have fixed widths and lose nothing.
pub proof fn lemma_int_bytes()
    ensures
        forall|x: u16| #[trigger] spec_u16_to_le_bytes(x).len() == 2,
        forall|x: u32| #[trigger] spec_u32_to_le_bytes(x).len() == 4,
        forall|x: u64| #[trigger] spec_u64_to_le_bytes(x).len() == 8,
        forall|x: u16, y: u16|
            #[trigger] spec_u16_to_le_bytes(x) == #[trigger] spec_u16_to_le_bytes(y) ==> x == y,
        forall|x: u32, y: u32|
            #[trigger] spec_u32_to_le_bytes(x) == #[trigger] spec_u32_to_le_bytes(y) ==> x == y,
        forall|x: u64, y: u64|
            #[trigger] spec_u64_to_le_bytes(x) == #[trigger] spec_u64_to_le_bytes(y) ==> x == y,
        forall|x: Option<u64>| #[trigger] option_u64_bytes(x).len() == option_u64_len(x),
{
    lemma_auto_spec_u16_to_from_le_bytes();
    lemma_auto_spec_u32_to_from_le_bytes();
    lemma_auto_spec_u64_to_from_le_bytes();
    assert forall|x: u16, y: u16|
        #[trigger] spec_u16_to_le_bytes(x) == #[trigger] spec_u16_to_le_bytes(y) implies x == y by {
        assert(spec_u16_to_le_bytes(x).len() == 2 && spec_u16_to_le_bytes(y).len() == 2);
    }
    assert forall|x: u32, y: u32|
        #[trigger] spec_u32_to_le_bytes(x) == #[trigger] spec_u32_to_le_bytes(y) implies x == y by {
        assert(spec_u32_to_le_bytes(x).len() == 4 && spec_u32_to_le_bytes(y).len() == 4);
    }
}

/// Appends one byte.
pub fn put_u8(out: &mut Vec<u8>, x: u8)
    ensures
        final(out)@ == old(out)@ + seq![x],
{
    out.push(x);
    assert(out@ =~= old(out)@ + seq![x]);
}

/// Appends a truth value as one byte.
pub fn put_bool(out: &mut Vec<u8>, b: bool)
    ensures
        final(out)@ == old(out)@ + seq![flag_byte(b)],
{
    put_u8(out, if b { 1 } else { 0 });
}

/// Appends a 16-bit integer, low byte first.
pub fn put_u16(out: &mut Vec<u8>, x: u16)
    ensures
        final(out)@ == old(out)@ + spec_u16_to_le_bytes(x),
{
    let mut bytes = u16_to_le_bytes(x);
    out.append(&mut bytes);
}

/// Appends a 32-bit integer, low byte first.
pub fn put_u32(out: &mut Vec<u8>, x: u32)
    ensures
        final(out)@ == old(out)@ + spec_u32_to_le_bytes(x),
{
    let mut bytes = u32_to_le_bytes(x);
    out.append(&mut bytes);
}

/// Appends a 64-bit integer, low byte first.
pub fn put_u64(out: &mut Vec<u8>, x: u64)
    ensures
        final(out)@ == old(out)@ + spec_u64_to_le_bytes(x),
{
    let mut bytes = u64_to_le_bytes(x);
    out.append(&mut bytes);
}

/// Appends an optional 64-bit integer.
pub fn put_option_u64(out: &mut Vec<u8>, x: Option<u64>)
    ensures
        final(out)@ == old(out)@ + option_u64_bytes(x),
{
    match x {
        None => {
            put_u8(out, 0);
        },
        Some(v) => {
            put_u8(out, 1);
            put_u64(out, v);
            assert(out@ =~= old(out)@ + (seq![1u8] + spec_u64_to_le_bytes(v)));
        },
    }
}

/// Appends the given bytes.
pub fn put_bytes(out: &mut Vec<u8>, bytes: &[u8])
    ensures
        final(out)@ == old(out)@ + bytes@,
{
    let mut i: usize = 0;
    while i < bytes.len()
        invariant
            i <= bytes.len(),
            out@ == old(out)@ + bytes@.subrange(0, i as int),
        decreases bytes.len() - i,
    {
        out.push(bytes[i]);
        assert(out@ =~= old(out)@ + bytes@.subrange(0, i + 1));
        i += 1;
    }
    assert(bytes@.subrange(0, bytes.len() as int) =~= bytes@);
}

/// Reads the 16-bit integer that starts at `pos`.
pub fn read_u16(data: &[u8], pos: usize) -> (r: u16)
    requires
        pos + 2 <= data.len(),
    ensures
        spec_u16_to_le_bytes(r) == data@.subrange(pos as int, pos + 2),
{
    proof {
        lemma_auto_spec_u16_to_from_le_bytes();
    }
    u16_from_le_bytes(slice_subrange(data, pos, pos + 2))
}

/// Reads the 32-bit integer that starts at `pos`.
pub fn read_u32(data: &[u8], pos: usize) -> (r: u32)
    requires
        pos + 4 <= data.len(),
    ensures
        spec_u32_to_le_bytes(r) == data@.subrange(pos as int, pos + 4),
{
    proof {
        lemma_auto_spec_u32_to_from_le_bytes();
    }
    u32_from_le_bytes(slice_subrange(data, pos, pos + 4))
}

/// Reads the 64-bit integer that starts at `pos`.
pub fn read_u64(data: &[u8], pos: usize) -> (r: u64)
    requires
        pos + 8 <= data.len(),
    ensures
        spec_u64_to_le_bytes(r) == data@.subrange(pos as int, pos + 8),
{
    proof {
        lemma_auto_spec_u64_to_from_le_bytes();
    }
    u64_from_le_bytes(slice_subrange(data, pos, pos + 8))
}

/// Reads the `N` bytes that start at `pos`.
pub fn read_array<const N: usize>(data: &[u8], pos: usize) -> (r: [u8; N])
    requires
        pos + N <= data.len(),
    ensures
        r@ == data@.subrange(pos as int, pos + N),
{
    let mut out = [0u8; N];
    let mut i: usize = 0;
    while i < N
        invariant
            i <= N,
            pos + N <= data.len(),
            out@.len() == N,
            forall|j: int| 0 <= j < i ==> out@[j] == data@[pos + j],
        decreases N - i,
    {
        out[i] = data[pos + i];
        i += 1;
    }
    assert(out@ =~= data@.subrange(pos as int, pos + N));
    out
}

} // verus!
