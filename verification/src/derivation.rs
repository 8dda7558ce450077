//! Deterministic address derivation.
//!
//! The host ledger provides two pure derivation primitives: the canonical
//! ("associated") asset account address of an owner for a given mint, and a
//! program-derived address with its bump-seed proof. The registry never
//! re-implements them; it calls them through the trusted wrappers below and
//! speaks of their results through the two uninterpreted names.

use vstd::prelude::*;

use crate::address::{address_le_bytes, Address};

verus! {

/// The canonical asset account address of `owner` for the asset `mint`, as
/// little-endian words. Names what
/// `anchor_spl::associated_token::get_associated_token_address` returns: a
/// function of the owner and mint addresses alone.
pub uninterp spec fn holder_account_key_of(owner: Seq<u64>, mint: Seq<u64>) -> Seq<u64>;

/// The program-derived address and bump-seed proof for a single seed under a
/// program identity, or `None` when no bump seed yields a valid address.
/// Names what `Pubkey::try_find_program_address` returns: a function of the
/// seed and the program identity alone.
pub uninterp spec fn program_address_of(seed: Seq<u8>, program: Seq<u64>) -> Option<(Seq<u64>, u8)>;

/// Relies on `anchor_spl::associated_token::get_associated_token_address`:
/// the canonical asset account address is computed from the owner and mint
/// addresses alone (a program-derived address under the associated-token
/// program).
#[verifier::external_body]
pub(crate) fn derive_holder_account_key(owner: &Address, mint: &Address) -> (r: Address)
    ensures
        r@ == holder_account_key_of(owner@, mint@),
{
    let o = anchor_lang::prelude::Pubkey::new_from_array(address_le_bytes(owner).try_into().unwrap());
    let m = anchor_lang::prelude::Pubkey::new_from_array(address_le_bytes(mint).try_into().unwrap());
    let k = anchor_spl::associated_token::get_associated_token_address(&o, &m).to_bytes();
    Address {
        w0: u64::from_le_bytes(k[0..8].try_into().unwrap()),
        w1: u64::from_le_bytes(k[8..16].try_into().unwrap()),
        w2: u64::from_le_bytes(k[16..24].try_into().unwrap()),
        w3: u64::from_le_bytes(k[24..32].try_into().unwrap()),
    }
}

/// Relies on `anchor_lang::prelude::Pubkey::try_find_program_address`: the
/// derived address and bump seed are computed from the seeds and program
/// identity alone, and `None` comes back only when no bump seed yields a
/// valid (off-curve) address.
#[verifier::external_body]
pub(crate) fn derive_program_address(seed: &Vec<u8>, program: &Address) -> (r: Option<(Address, u8)>)
    ensures
        match r {
            Some(p) => program_address_of(seed@, program@) == Some((p.0@, p.1)),
            None => program_address_of(seed@, program@) is None,
        },
{
    let pid = anchor_lang::prelude::Pubkey::new_from_array(address_le_bytes(program).try_into().unwrap());
    match anchor_lang::prelude::Pubkey::try_find_program_address(&[seed.as_slice()], &pid) {
        None => None,
        Some((k, bump)) => {
            let b = k.to_bytes();
            Some((Address {
                w0: u64::from_le_bytes(b[0..8].try_into().unwrap()),
                w1: u64::from_le_bytes(b[8..16].try_into().unwrap()),
                w2: u64::from_le_bytes(b[16..24].try_into().unwrap()),
                w3: u64::from_le_bytes(b[24..32].try_into().unwrap()),
            }, bump))
        },
    }
}

/// The seed string of the singleton asset authority record: "authority".
pub open spec fn authority_seed() -> Seq<u8> {
    seq![0x61u8, 0x75u8, 0x74u8, 0x68u8, 0x6fu8, 0x72u8, 0x69u8, 0x74u8, 0x79u8]
}

/// Builds the authority seed bytes.
fn authority_seed_bytes() -> (r: Vec<u8>)
    ensures
        r@ == authority_seed(),
{
    let mut out: Vec<u8> = Vec::new();
    out.push(0x61u8);
    out.push(0x75u8);
    out.push(0x74u8);
    out.push(0x68u8);
    out.push(0x6fu8);
    out.push(0x72u8);
    out.push(0x69u8);
    out.push(0x74u8);
    out.push(0x79u8);
    proof {
        assert(out@ =~= authority_seed());
    }
    out
}

/// The deterministic storage address of the singleton asset authority record
/// under `program_key`, with its bump-seed proof. The asset's supply
/// controller must be configured to this address for registrations and
/// claims to succeed.
pub fn derive_authority_address(program_key: &Address) -> (r: Option<(Address, u8)>)
    ensures
        match r {
            Some(p) => program_address_of(authority_seed(), program_key@) == Some((p.0@, p.1)),
            None => program_address_of(authority_seed(), program_key@) is None,
        },
{
    let seed = authority_seed_bytes();
    derive_program_address(&seed, program_key)
}

} // verus!
