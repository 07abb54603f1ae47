use vstd::bytes::{
    lemma_auto_spec_u64_to_from_le_bytes, spec_u64_from_le_bytes, spec_u64_to_le_bytes,
    u64_from_le_bytes, u64_to_le_bytes,
};
use vstd::prelude::*;
use vstd::slice::slice_subrange;

verus! {

/// A 32-byte account address, the opaque identifier of every asset, record
/// and signing identity handled by the engine. The four 64-bit words hold
/// the bytes in little-endian order: word 0 carries bytes 0..8 and so on.
#[derive(Clone, Copy, PartialEq, Eq, Structural, Hash, Debug)]
pub struct Address {
    pub w0: u64,
    pub w1: u64,
    pub w2: u64,
    pub w3: u64,
}

impl Address {
    /// The 32-byte representation of this address.
    pub open spec fn bytes(self) -> Seq<u8> {
        spec_u64_to_le_bytes(self.w0) + spec_u64_to_le_bytes(self.w1) + spec_u64_to_le_bytes(
            self.w2,
        ) + spec_u64_to_le_bytes(self.w3)
    }

    /// The address read back from a 32-byte representation.
    pub open spec fn spec_from_bytes(s: Seq<u8>) -> Address
        recommends
            s.len() == 32,
    {
        Address {
            w0: spec_u64_from_le_bytes(s.subrange(0, 8)),
            w1: spec_u64_from_le_bytes(s.subrange(8, 16)),
            w2: spec_u64_from_le_bytes(s.subrange(16, 24)),
            w3: spec_u64_from_le_bytes(s.subrange(24, 32)),
        }
    }

    pub open spec fn spec_zero() -> Address {
        Address { w0: 0, w1: 0, w2: 0, w3: 0 }
    }

    /// The all-zero address, which stands for "not yet configured".
    pub fn zero() -> (r: Address)
        ensures
            r == Address::spec_zero(),
    {
        Address { w0: 0, w1: 0, w2: 0, w3: 0 }
    }

    pub fn new(w0: u64, w1: u64, w2: u64, w3: u64) -> (r: Address)
        ensures
            r == (Address { w0, w1, w2, w3 }),
    {
        Address { w0, w1, w2, w3 }
    }

    /// Writes the 32-byte representation.
    pub fn to_bytes(&self) -> (r: Vec<u8>)
        ensures
            r@ == self.bytes(),
            r@.len() == 32,
    {
        proof {
            lemma_auto_spec_u64_to_from_le_bytes();
        }
        let mut r = u64_to_le_bytes(self.w0);
        let mut b1 = u64_to_le_bytes(self.w1);
        let mut b2 = u64_to_le_bytes(self.w2);
        let mut b3 = u64_to_le_bytes(self.w3);
        r.append(&mut b1);
        r.append(&mut b2);
        r.append(&mut b3);
        r
    }

    /// Reads an address back from its 32-byte representation.
    pub fn from_bytes(s: &[u8]) -> (r: Address)
        requires
            s@.len() == 32,
        ensures
            r == Address::spec_from_bytes(s@),
    {
        let w0 = u64_from_le_bytes(slice_subrange(s, 0, 8));
        let w1 = u64_from_le_bytes(slice_subrange(s, 8, 16));
        let w2 = u64_from_le_bytes(slice_subrange(s, 16, 24));
        let w3 = u64_from_le_bytes(slice_subrange(s, 24, 32));
        Address { w0, w1, w2, w3 }
    }
}

/// Reading the 32 bytes of an address gives that address back.
pub proof fn lemma_address_bytes_round_trip(a: Address)
    ensures
        a.bytes().len() == 32,
        Address::spec_from_bytes(a.bytes()) == a,
{
    lemma_auto_spec_u64_to_from_le_bytes();
    let s = a.bytes();
    assert(s.subrange(0, 8) =~= spec_u64_to_le_bytes(a.w0));
    assert(s.subrange(8, 16) =~= spec_u64_to_le_bytes(a.w1));
    assert(s.subrange(16, 24) =~= spec_u64_to_le_bytes(a.w2));
    assert(s.subrange(24, 32) =~= spec_u64_to_le_bytes(a.w3));
}

/// Writing the address read from 32 bytes gives those bytes back.
pub proof fn lemma_address_from_bytes_round_trip(s: Seq<u8>)
    requires
        s.len() == 32,
    ensures
        Address::spec_from_bytes(s).bytes() == s,
{
    lemma_auto_spec_u64_to_from_le_bytes();
    let a = Address::spec_from_bytes(s);
    assert(a.bytes() =~= s);
}

} // verus!
