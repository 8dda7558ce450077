//! One input for each way the registry rejects an operation, and checks of
//! the derivation wrappers through the public interface.

use membership_registry::{
    derive_authority_address, Address, AssetAccount, ClaimAuthorization, Membership,
    MintAuthority, Registry, RegistryError,
};

fn addr(n: u64) -> Address {
    Address { w0: n, w1: 0, w2: 0, w3: 0 }
}

fn setup() -> Registry {
    let program = addr(1);
    let mint = addr(2);
    let (authority_key, _bump) = derive_authority_address(&program).expect("derivable authority");
    Registry::new(program, mint, authority_key)
}

#[test]
fn duplicate_membership_rejected() {
    let mut reg = setup();
    let a = addr(10);
    let b = addr(11);
    assert_eq!(reg.initialize(), Ok(()));
    let a_key = reg.ensure_account(a);
    assert_eq!(reg.create_membership(a, a_key), Ok(()));
    let before = reg.clone();
    assert_eq!(reg.create_membership(a, a_key), Err(RegistryError::DuplicateMembership));
    let b_key = reg.ensure_account(b);
    assert_eq!(reg.create_membership(b, b_key), Err(RegistryError::DuplicateMembership));
    assert_eq!(reg.current_holder(), before.current_holder());
    assert_eq!(reg.balance_of(a), Some(100));
    assert_eq!(reg.balance_of(b), Some(0));
}

#[test]
fn create_before_initialize_rejected() {
    let mut reg = setup();
    let a = addr(10);
    let a_key = reg.ensure_account(a);
    let before = reg.clone();
    assert_eq!(reg.create_membership(a, a_key), Err(RegistryError::AuthorityMismatch));
    assert_eq!(reg, before);
}

#[test]
fn create_with_wrong_supply_controller_rejected() {
    // The asset was configured with a supply controller that is not the
    // derived asset authority.
    let mut reg = Registry::new(addr(1), addr(2), addr(77));
    let a = addr(10);
    assert_eq!(reg.initialize(), Ok(()));
    let a_key = reg.ensure_account(a);
    let before = reg.clone();
    assert_eq!(reg.create_membership(a, a_key), Err(RegistryError::MintAuthorityMismatch));
    assert_eq!(reg, before);
}

#[test]
fn create_with_wrong_account_address_rejected() {
    let mut reg = setup();
    let a = addr(10);
    assert_eq!(reg.initialize(), Ok(()));
    let _ = reg.ensure_account(a);
    assert_eq!(reg.create_membership(a, addr(999)), Err(RegistryError::AccountMismatch));
    // A creator without an account is rejected the same way.
    let b = addr(11);
    let b_key_guess = addr(998);
    assert_eq!(reg.create_membership(b, b_key_guess), Err(RegistryError::AccountMismatch));
}

#[test]
fn claim_without_record_rejected() {
    let mut reg = setup();
    let b = addr(11);
    assert_eq!(reg.initialize(), Ok(()));
    let b_key = reg.ensure_account(b);
    let claim = ClaimAuthorization { claimant: b };
    assert_eq!(
        reg.claim_membership(&claim, b_key, addr(10), addr(999)),
        Err(RegistryError::AccountMismatch)
    );
}

#[test]
fn claim_with_frozen_claimant_rejected() {
    let mut reg = setup();
    let a = addr(10);
    let b = addr(11);
    assert_eq!(reg.initialize(), Ok(()));
    let a_key = reg.ensure_account(a);
    assert_eq!(reg.create_membership(a, a_key), Ok(()));
    let b_key = reg.ensure_account(b);
    assert_eq!(reg.claim_membership(&ClaimAuthorization { claimant: b }, b_key, a, a_key), Ok(()));
    // a's account is now frozen, so a cannot claim the membership back
    // without recovering first.
    let before = reg.clone();
    assert_eq!(
        reg.claim_membership(&ClaimAuthorization { claimant: a }, a_key, b, b_key),
        Err(RegistryError::AlreadyFrozen)
    );
    assert_eq!(reg, before);
}

#[test]
fn claim_with_frozen_prior_holder_rejected() {
    let mut reg = setup();
    let a = addr(10);
    let b = addr(11);
    assert_eq!(reg.initialize(), Ok(()));
    let a_key = reg.ensure_account(a);
    assert_eq!(reg.create_membership(a, a_key), Ok(()));
    // A self-claim is not rejected: it mints to the holder and then freezes
    // the holder's own account.
    assert_eq!(reg.claim_membership(&ClaimAuthorization { claimant: a }, a_key, a, a_key), Ok(()));
    assert_eq!(reg.current_holder(), Some(a));
    assert_eq!(reg.balance_of(a), Some(200));
    assert_eq!(reg.frozen_of(a), Some(true));
    // Now the record's holder account is frozen, so a claim against it fails
    // until the holder recovers.
    let b_key = reg.ensure_account(b);
    let before = reg.clone();
    assert_eq!(
        reg.claim_membership(&ClaimAuthorization { claimant: b }, b_key, a, a_key),
        Err(RegistryError::AlreadyFrozen)
    );
    assert_eq!(reg, before);
    // After recovery the claim goes through.
    assert_eq!(reg.thaw_governance_token_account(a, a_key), Ok(()));
    assert_eq!(reg.balance_of(a), Some(100));
    assert_eq!(reg.claim_membership(&ClaimAuthorization { claimant: b }, b_key, a, a_key), Ok(()));
    assert_eq!(reg.current_holder(), Some(b));
}

#[test]
fn thaw_unfrozen_account_rejected() {
    let mut reg = setup();
    let a = addr(10);
    assert_eq!(reg.initialize(), Ok(()));
    let a_key = reg.ensure_account(a);
    assert_eq!(reg.create_membership(a, a_key), Ok(()));
    let before = reg.clone();
    assert_eq!(reg.thaw_governance_token_account(a, a_key), Err(RegistryError::AccountNotFrozen));
    assert_eq!(reg, before);
}

#[test]
fn thaw_below_fixed_amount_rejected() {
    // A frozen account holding less than the fixed unit amount: the burn must
    // fail cleanly rather than underflow, leaving the state unchanged.
    let program = addr(1);
    let mint = addr(2);
    let (authority_key, bump) = derive_authority_address(&program).expect("derivable authority");
    let a = addr(10);
    let mut reg = Registry {
        program_key: program,
        mint_key: mint,
        mint_authority_key: authority_key,
        authority: Some(MintAuthority { key: authority_key, bump }),
        record: Some(Membership { creator: a, current_holder: a }),
        accounts: vec![AssetAccount { owner: a, balance: 40, frozen: true }],
    };
    let a_key = reg.ensure_account(a);
    let before = reg.clone();
    assert_eq!(
        reg.thaw_governance_token_account(a, a_key),
        Err(RegistryError::InsufficientBalance)
    );
    assert_eq!(reg, before);
    assert_eq!(reg.balance_of(a), Some(40));
    assert_eq!(reg.frozen_of(a), Some(true));
}

#[test]
fn thaw_with_wrong_address_rejected() {
    let mut reg = setup();
    let a = addr(10);
    assert_eq!(reg.initialize(), Ok(()));
    let _ = reg.ensure_account(a);
    assert_eq!(
        reg.thaw_governance_token_account(a, addr(999)),
        Err(RegistryError::AccountMismatch)
    );
    // An owner without an account is rejected the same way.
    assert_eq!(
        reg.thaw_governance_token_account(addr(12), addr(999)),
        Err(RegistryError::AccountMismatch)
    );
}

#[test]
fn ensure_account_is_idempotent() {
    let mut reg = setup();
    let a = addr(10);
    assert_eq!(reg.initialize(), Ok(()));
    let k1 = reg.ensure_account(a);
    assert_eq!(reg.create_membership(a, k1), Ok(()));
    let k2 = reg.ensure_account(a);
    assert_eq!(k1, k2);
    assert_eq!(reg.balance_of(a), Some(100));
}

#[test]
fn derived_account_keys_are_real_derivations() {
    let mut reg = setup();
    let a = addr(10);
    let b = addr(11);
    let a_key = reg.ensure_account(a);
    let b_key = reg.ensure_account(b);
    // Not the identity on the owner, and distinct owners get distinct keys.
    assert_ne!(a_key, a);
    assert_ne!(b_key, b);
    assert_ne!(a_key, b_key);
    // The key depends on the mint as well as the owner.
    let mut other = Registry::new(addr(1), addr(3), addr(77));
    let a_key_other = other.ensure_account(a);
    assert_ne!(a_key, a_key_other);
}

#[test]
fn derived_authority_depends_on_program() {
    let (k1, _) = derive_authority_address(&addr(1)).expect("derivable authority");
    let (k2, _) = derive_authority_address(&addr(2)).expect("derivable authority");
    assert_ne!(k1, k2);
    assert_ne!(k1, addr(1));
}
