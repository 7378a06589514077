//! Account addresses and the two program identities this library knows.
use vstd::prelude::*;

verus! {

/// A 32-byte account address.
#[derive(Clone, Copy, Debug, Hash)]
pub struct Address {
    pub bytes: [u8; 32],
}

impl View for Address {
    type V = Seq<u8>;

    open spec fn view(&self) -> Seq<u8> {
        self.bytes@
    }
}

impl PartialEq for Address {
    fn eq(&self, other: &Address) -> (r: bool) {
        let mut i: usize = 0;
        while i < 32
            invariant
                i <= 32,
                forall|j: int| 0 <= j < i ==> self.bytes[j] == other.bytes[j],
            decreases 32 - i,
        {
            if self.bytes[i] != other.bytes[i] {
                return false;
            }
            i += 1;
        }
        proof {
            assert(self.bytes@ =~= other.bytes@);
        }
        true
    }
}

impl Eq for Address {}

impl vstd::std_specs::cmp::PartialEqSpecImpl for Address {
    open spec fn obeys_eq_spec() -> bool {
        true
    }

    open spec fn eq_spec(&self, other: &Address) -> bool {
        self.bytes@ == other.bytes@
    }
}

impl Address {
    /// The address made of the given bytes.
    pub fn new_from_array(bytes: [u8; 32]) -> (r: Address)
        ensures
            r.bytes == bytes,
    {
        Address { bytes }
    }

    /// The bytes of the address.
    pub fn to_bytes(&self) -> (r: [u8; 32])
        ensures
            r == self.bytes,
    {
        self.bytes
    }

    /// The bytes of the address as a growable vector.
    pub fn to_vec(&self) -> (r: Vec<u8>)
        ensures
            r@ == self@,
    {
        let mut out: Vec<u8> = Vec::new();
        let mut i: usize = 0;
        while i < 32
            invariant
                i <= 32,
                out@ == self.bytes@.subrange(0, i as int),
            decreases 32 - i,
        {
            out.push(self.bytes[i]);
            assert(self.bytes@.subrange(0, i as int).push(self.bytes@[i as int])
                =~= self.bytes@.subrange(0, i + 1));
            i += 1;
        }
        assert(self.bytes@.subrange(0, 32) =~= self.bytes@);
        out
    }
}

/// Two addresses are the same value exactly when their bytes agree.
pub proof fn lemma_address_eq(a: Address, b: Address)
    ensures
        (a@ == b@) <==> (a == b),
        a@.len() == 32,
{
    if a@ == b@ {
        assert(a.bytes@ =~= b.bytes@);
        assert(a.bytes == b.bytes);
    }
}

/// Bytes of the address under which this program is deployed.
pub const PROGRAM_ID: [u8; 32] = [
    96, 35, 23, 33, 37, 218, 43, 79, 218, 125, 141, 137, 87, 103, 50, 197,
    67, 161, 64, 253, 251, 221, 49, 5, 0, 186, 81, 157, 234, 201, 92, 139,
];

/// Bytes of the address of the compressed token program, the only program a
/// claim may be forwarded to.
pub const CTOKEN_PROGRAM_ID: [u8; 32] = [
    9, 21, 163, 87, 35, 121, 78, 143, 182, 93, 7, 91, 107, 114, 105, 156,
    56, 221, 2, 229, 148, 139, 117, 176, 229, 160, 65, 142, 128, 151, 91, 68,
];

/// The address under which this program is deployed.
pub fn id() -> (r: Address)
    ensures
        r.bytes == PROGRAM_ID,
{
    Address { bytes: PROGRAM_ID }
}

/// The address of the compressed token program.
pub fn ctoken_program_id() -> (r: Address)
    ensures
        r.bytes == CTOKEN_PROGRAM_ID,
{
    Address { bytes: CTOKEN_PROGRAM_ID }
}

} // verus!
