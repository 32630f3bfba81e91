//! Account identities: 32-byte keys and addresses, held as four 64-bit
//! little-endian words so that equality and the zero sentinel are plain
//! word comparisons.

use vstd::bytes::*;
use vstd::prelude::*;
use vstd::slice::slice_subrange;

verus! {

/// A 32-byte account identity: a wallet key, a program identity or a derived
/// address. The four words are the little-endian quarters of the key, in
/// order, so `id_bytes` below gives back the canonical 32-byte form.
#[derive(Clone, Copy, PartialEq, Eq, Structural, Debug, Hash)]
pub struct Identity {
    pub w0: u64,
    pub w1: u64,
    pub w2: u64,
    pub w3: u64,
}

impl Identity {
    /// The all-zero identity, used throughout as the "unset" sentinel.
    pub open spec fn spec_zero() -> Identity {
        Identity { w0: 0, w1: 0, w2: 0, w3: 0 }
    }

    pub fn zero() -> (r: Identity)
        ensures
            r == Identity::spec_zero(),
    {
        Identity { w0: 0, w1: 0, w2: 0, w3: 0 }
    }

    pub open spec fn spec_is_zero(self) -> bool {
        self == Identity::spec_zero()
    }

    pub fn is_zero(&self) -> (r: bool)
        ensures
            r == self.spec_is_zero(),
    {
        self.w0 == 0 && self.w1 == 0 && self.w2 == 0 && self.w3 == 0
    }
}

/// The canonical 32-byte encoding of an identity.
pub open spec fn id_bytes(i: Identity) -> Seq<u8> {
    spec_u64_to_le_bytes(i.w0) + spec_u64_to_le_bytes(i.w1) + spec_u64_to_le_bytes(i.w2)
        + spec_u64_to_le_bytes(i.w3)
}

pub proof fn lemma_id_bytes_len(i: Identity)
    ensures
        id_bytes(i).len() == 32,
{
    lemma_auto_spec_u64_to_from_le_bytes();
}

/// The identity whose canonical encoding is the 32-byte sequence `s`.
pub open spec fn id_from_bytes(s: Seq<u8>) -> Identity {
    Identity {
        w0: spec_u64_from_le_bytes(s.subrange(0, 8)),
        w1: spec_u64_from_le_bytes(s.subrange(8, 16)),
        w2: spec_u64_from_le_bytes(s.subrange(16, 24)),
        w3: spec_u64_from_le_bytes(s.subrange(24, 32)),
    }
}

pub proof fn lemma_id_from_bytes_of_id_bytes(i: Identity)
    ensures
        id_from_bytes(id_bytes(i)) == i,
{
    lemma_auto_spec_u64_to_from_le_bytes();
    assert(id_bytes(i).subrange(0, 8) =~= spec_u64_to_le_bytes(i.w0));
    assert(id_bytes(i).subrange(8, 16) =~= spec_u64_to_le_bytes(i.w1));
    assert(id_bytes(i).subrange(16, 24) =~= spec_u64_to_le_bytes(i.w2));
    assert(id_bytes(i).subrange(24, 32) =~= spec_u64_to_le_bytes(i.w3));
}

/// Reads an identity back from its 32-byte encoding.
pub fn id_from_bytes32(v: &[u8]) -> (r: Identity)
    requires
        v@.len() == 32,
    ensures
        r == id_from_bytes(v@),
{
    let w0 = u64_from_le_bytes(slice_subrange(v, 0, 8));
    let w1 = u64_from_le_bytes(slice_subrange(v, 8, 16));
    let w2 = u64_from_le_bytes(slice_subrange(v, 16, 24));
    let w3 = u64_from_le_bytes(slice_subrange(v, 24, 32));
    Identity { w0, w1, w2, w3 }
}

/// Appends the 32-byte encoding of `i` to `buf`.
pub fn append_id(buf: &mut Vec<u8>, i: &Identity)
    ensures
        final(buf)@ == old(buf)@ + id_bytes(*i),
{
    let mut w = u64_to_le_bytes(i.w0);
    buf.append(&mut w);
    let mut w = u64_to_le_bytes(i.w1);
    buf.append(&mut w);
    let mut w = u64_to_le_bytes(i.w2);
    buf.append(&mut w);
    let mut w = u64_to_le_bytes(i.w3);
    buf.append(&mut w);
    assert(buf@ =~= old(buf)@ + id_bytes(*i));
}

/// Converts an identity to its 32-byte encoding.
pub fn id_to_bytes(i: &Identity) -> (r: Vec<u8>)
    ensures
        r@ == id_bytes(*i),
{
    let mut buf: Vec<u8> = Vec::new();
    append_id(&mut buf, i);
    assert(buf@ =~= id_bytes(*i));
    buf
}

} // verus!
