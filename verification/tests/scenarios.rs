//! End-to-end scenarios of the membership lifecycle.

use membership_registry::{
    derive_authority_address, Address, ClaimAuthorization, Registry, RegistryError,
};

fn addr(n: u64) -> Address {
    Address { w0: n, w1: 0, w2: 0, w3: 0 }
}

/// A registry whose asset is configured with the derived authority as its
/// supply controller, as a correct bootstrap would set it up.
fn setup() -> Registry {
    let program = addr(1);
    let mint = addr(2);
    let (authority_key, _bump) = derive_authority_address(&program).expect("derivable authority");
    Registry::new(program, mint, authority_key)
}

#[test]
fn initialize_creates_authority_once() {
    let mut reg = setup();
    assert!(!reg.is_initialized());
    assert_eq!(reg.initialize(), Ok(()));
    assert!(reg.is_initialized());
    let key = reg.authority_key().expect("authority exists");
    // The derived authority address is a real derivation, not the program key.
    assert_ne!(key, addr(1));
    assert_eq!(reg.initialize(), Err(RegistryError::AlreadyInitialized));
}

#[test]
fn create_membership_mints_to_creator() {
    let mut reg = setup();
    let a = addr(10);
    assert_eq!(reg.initialize(), Ok(()));
    let a_key = reg.ensure_account(a);
    assert_eq!(reg.create_membership(a, a_key), Ok(()));
    assert_eq!(reg.current_holder(), Some(a));
    assert_eq!(reg.balance_of(a), Some(100));
    assert_eq!(reg.frozen_of(a), Some(false));
}

#[test]
fn claim_membership_transfers_and_freezes() {
    let mut reg = setup();
    let a = addr(10);
    let b = addr(11);
    assert_eq!(reg.initialize(), Ok(()));
    let a_key = reg.ensure_account(a);
    assert_eq!(reg.create_membership(a, a_key), Ok(()));
    let b_key = reg.ensure_account(b);
    let claim = ClaimAuthorization { claimant: b };
    assert_eq!(reg.claim_membership(&claim, b_key, a, a_key), Ok(()));
    assert_eq!(reg.current_holder(), Some(b));
    assert_eq!(reg.balance_of(b), Some(100));
    assert_eq!(reg.frozen_of(b), Some(false));
    assert_eq!(reg.frozen_of(a), Some(true));
    assert_eq!(reg.balance_of(a), Some(100));
}

#[test]
fn thaw_burns_and_unfreezes_without_membership() {
    let mut reg = setup();
    let a = addr(10);
    let b = addr(11);
    assert_eq!(reg.initialize(), Ok(()));
    let a_key = reg.ensure_account(a);
    assert_eq!(reg.create_membership(a, a_key), Ok(()));
    let b_key = reg.ensure_account(b);
    let claim = ClaimAuthorization { claimant: b };
    assert_eq!(reg.claim_membership(&claim, b_key, a, a_key), Ok(()));
    assert_eq!(reg.thaw_governance_token_account(a, a_key), Ok(()));
    assert_eq!(reg.frozen_of(a), Some(false));
    assert_eq!(reg.balance_of(a), Some(0));
    // Recovery conveys no membership claim: the record still points at b.
    assert_eq!(reg.current_holder(), Some(b));
}

#[test]
fn claim_rejects_wrong_holder_account_address() {
    let mut reg = setup();
    let a = addr(10);
    let b = addr(11);
    assert_eq!(reg.initialize(), Ok(()));
    let a_key = reg.ensure_account(a);
    assert_eq!(reg.create_membership(a, a_key), Ok(()));
    let b_key = reg.ensure_account(b);
    let before = reg.clone();
    let claim = ClaimAuthorization { claimant: b };
    // The supplied current-holder account address is not the canonical
    // derived address for the record's holder.
    let junk = addr(999);
    assert_eq!(
        reg.claim_membership(&claim, b_key, a, junk),
        Err(RegistryError::AccountMismatch)
    );
    assert_eq!(reg, before);
}

#[test]
fn conflicting_claims_only_one_commits() {
    let mut reg = setup();
    let a = addr(10);
    let b = addr(11);
    let c = addr(12);
    assert_eq!(reg.initialize(), Ok(()));
    let a_key = reg.ensure_account(a);
    assert_eq!(reg.create_membership(a, a_key), Ok(()));
    let b_key = reg.ensure_account(b);
    let c_key = reg.ensure_account(c);
    // Both submissions were prepared against holder a.
    let first = ClaimAuthorization { claimant: b };
    let second = ClaimAuthorization { claimant: c };
    assert_eq!(reg.claim_membership(&first, b_key, a, a_key), Ok(()));
    let after_first = reg.clone();
    // The second observes a stale record and is rejected with zero effect.
    assert_eq!(
        reg.claim_membership(&second, c_key, a, a_key),
        Err(RegistryError::AccountMismatch)
    );
    assert_eq!(reg, after_first);
    assert_eq!(reg.current_holder(), Some(b));
    assert_eq!(reg.balance_of(c), Some(0));
}

#[test]
fn recovered_holder_can_claim_again() {
    let mut reg = setup();
    let a = addr(10);
    let b = addr(11);
    assert_eq!(reg.initialize(), Ok(()));
    let a_key = reg.ensure_account(a);
    assert_eq!(reg.create_membership(a, a_key), Ok(()));
    let b_key = reg.ensure_account(b);
    assert_eq!(reg.claim_membership(&ClaimAuthorization { claimant: b }, b_key, a, a_key), Ok(()));
    assert_eq!(reg.thaw_governance_token_account(a, a_key), Ok(()));
    // The thawed account can take part in the flows again.
    assert_eq!(reg.claim_membership(&ClaimAuthorization { claimant: a }, a_key, b, b_key), Ok(()));
    assert_eq!(reg.current_holder(), Some(a));
    assert_eq!(reg.balance_of(a), Some(100));
    assert_eq!(reg.frozen_of(b), Some(true));
}
