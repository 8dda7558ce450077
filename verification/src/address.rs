//! Principal and account addresses.
//!
//! An address on the host ledger is a 32-byte value. The registry only ever
//! compares addresses and feeds them to the deterministic derivation
//! functions, so it carries them as four 64-bit little-endian words.

use vstd::prelude::*;

verus! {

/// A 32-byte ledger address, split into four little-endian 64-bit words
/// (`w0` holds bytes 0..8, `w3` holds bytes 24..32).
#[derive(Clone, Copy, PartialEq, Eq, Structural, Debug, Hash)]
pub struct Address {
    pub w0: u64,
    pub w1: u64,
    pub w2: u64,
    pub w3: u64,
}

impl View for Address {
    type V = Seq<u64>;

    open spec fn view(&self) -> Seq<u64> {
        seq![self.w0, self.w1, self.w2, self.w3]
    }
}

/// The address whose word view is `v` (meaningful when `v` has four words).
pub open spec fn address_from_words(v: Seq<u64>) -> Address {
    Address { w0: v[0], w1: v[1], w2: v[2], w3: v[3] }
}

/// Two addresses are equal exactly when their word views are equal.
pub proof fn lemma_address_view_injective(a: Address, b: Address)
    ensures
        a@ == b@ <==> a == b,
{
    if a@ == b@ {
        assert(a.w0 == a@[0] && a.w1 == a@[1] && a.w2 == a@[2] && a.w3 == a@[3]);
        assert(b.w0 == b@[0] && b.w1 == b@[1] && b.w2 == b@[2] && b.w3 == b@[3]);
    }
}

/// Byte `k` of the little-endian encoding of the word `w`.
pub open spec fn word_le_byte(w: u64, k: u64) -> u8 {
    ((w >> (8 * k)) & 0xff) as u8
}

/// The 32-byte little-endian encoding of an address, used when an address is
/// handed to the ledger's derivation primitives.
pub open spec fn address_le_byte(a: Address, k: int) -> u8 {
    if k < 8 {
        word_le_byte(a.w0, (k % 8) as u64)
    } else if k < 16 {
        word_le_byte(a.w1, (k % 8) as u64)
    } else if k < 24 {
        word_le_byte(a.w2, (k % 8) as u64)
    } else {
        word_le_byte(a.w3, (k % 8) as u64)
    }
}

/// Appends the eight little-endian bytes of `w` to `out`.
fn push_word_le(out: &mut Vec<u8>, w: u64)
    ensures
        final(out)@.len() == old(out)@.len() + 8,
        forall|k: int| 0 <= k < old(out)@.len() ==> final(out)@[k] == old(out)@[k],
        forall|k: u64| k < 8 ==> final(out)@[old(out)@.len() + k] == word_le_byte(w, k),
{
    let mut k: u64 = 0;
    while k < 8
        invariant
            k <= 8,
            out@.len() == old(out)@.len() + k,
            forall|j: int| 0 <= j < old(out)@.len() ==> out@[j] == old(out)@[j],
            forall|j: u64| j < k ==> out@[old(out)@.len() + j] == word_le_byte(w, j),
        decreases 8 - k,
    {
        out.push(((w >> (8 * k)) & 0xff) as u8);
        k = k + 1;
    }
}

/// The 32-byte little-endian encoding of an address.
pub fn address_le_bytes(a: &Address) -> (r: Vec<u8>)
    ensures
        r@.len() == 32,
        forall|k: int| 0 <= k < 32 ==> r@[k] == address_le_byte(*a, k),
{
    let mut out: Vec<u8> = Vec::new();
    push_word_le(&mut out, a.w0);
    push_word_le(&mut out, a.w1);
    push_word_le(&mut out, a.w2);
    push_word_le(&mut out, a.w3);
    out
}

} // verus!
