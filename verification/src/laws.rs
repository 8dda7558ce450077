//! Registry-wide laws.
//!
//! These proof functions state the guarantees of the registry over whole
//! operation sequences: exclusivity of the membership balance, the bound on
//! recovery burns, that recovery conveys no membership claim, and that of two
//! conflicting claims at most one commits.

use vstd::prelude::*;

use crate::address::Address;
use crate::errors::RegistryError;
use crate::registry::{
    initial_registry, spec_claim_membership, spec_create_membership, spec_ensure_account,
    spec_initialize, spec_thaw, ClaimAuthorization, RegistryView, MEMBERSHIP_UNITS,
};
use crate::registry::{
    lemma_claim_membership_wf, lemma_create_membership_wf, lemma_ensure_account_wf,
    lemma_initialize_wf, lemma_thaw_wf,
};

verus! {

/// One registry operation with its inputs.
pub enum RegistryOp {
    Initialize,
    EnsureAccount { owner: Address },
    CreateMembership { creator: Address, creator_account_key: Address },
    ClaimMembership {
        authorization: ClaimAuthorization,
        claimant_account_key: Address,
        prior_holder: Address,
        prior_holder_account_key: Address,
    },
    ThawGovernanceTokenAccount { owner: Address, account_key: Address },
}

/// The state an operation outcome leaves behind: its new state on success,
/// the old state untouched on failure (every operation is atomic).
pub open spec fn outcome_state(s: RegistryView, r: Result<RegistryView, RegistryError>) -> RegistryView {
    match r {
        Ok(v) => v,
        Err(_) => s,
    }
}

/// The state after applying one operation to `s`.
pub open spec fn apply_op(s: RegistryView, op: RegistryOp) -> RegistryView {
    match op {
        RegistryOp::Initialize => outcome_state(s, spec_initialize(s)),
        RegistryOp::EnsureAccount { owner } => spec_ensure_account(s, owner),
        RegistryOp::CreateMembership { creator, creator_account_key } => outcome_state(
            s,
            spec_create_membership(s, creator, creator_account_key),
        ),
        RegistryOp::ClaimMembership {
            authorization,
            claimant_account_key,
            prior_holder,
            prior_holder_account_key,
        } => outcome_state(
            s,
            spec_claim_membership(
                s,
                authorization,
                claimant_account_key,
                prior_holder,
                prior_holder_account_key,
            ),
        ),
        RegistryOp::ThawGovernanceTokenAccount { owner, account_key } => outcome_state(
            s,
            spec_thaw(s, owner, account_key),
        ),
    }
}

/// The state after applying a sequence of operations to `s`, in order.
pub open spec fn run_ops(s: RegistryView, ops: Seq<RegistryOp>) -> RegistryView
    decreases ops.len(),
{
    if ops.len() == 0 {
        s
    } else {
        run_ops(apply_op(s, ops[0]), ops.drop_first())
    }
}

/// Every single operation preserves well-formedness.
pub proof fn lemma_apply_op_wf(s: RegistryView, op: RegistryOp)
    requires
        s.wf(),
    ensures
        apply_op(s, op).wf(),
{
    match op {
        RegistryOp::Initialize => {
            lemma_initialize_wf(s);
        },
        RegistryOp::EnsureAccount { owner } => {
            lemma_ensure_account_wf(s, owner);
        },
        RegistryOp::CreateMembership { creator, creator_account_key } => {
            lemma_create_membership_wf(s, creator, creator_account_key);
        },
        RegistryOp::ClaimMembership {
            authorization,
            claimant_account_key,
            prior_holder,
            prior_holder_account_key,
        } => {
            lemma_claim_membership_wf(
                s,
                authorization,
                claimant_account_key,
                prior_holder,
                prior_holder_account_key,
            );
        },
        RegistryOp::ThawGovernanceTokenAccount { owner, account_key } => {
            lemma_thaw_wf(s, owner, account_key);
        },
    }
}

/// Every sequence of operations preserves well-formedness.
pub proof fn lemma_run_ops_wf(s: RegistryView, ops: Seq<RegistryOp>)
    requires
        s.wf(),
    ensures
        run_ops(s, ops).wf(),
    decreases ops.len(),
{
    if ops.len() > 0 {
        lemma_apply_op_wf(s, ops[0]);
        lemma_run_ops_wf(apply_op(s, ops[0]), ops.drop_first());
    }
}

/// Exclusivity in one state: in a well-formed registry at most one non-frozen
/// account holds a non-zero balance — any two such accounts are the same
/// account, and it belongs to the current holder of the membership record.
pub proof fn lemma_exclusive_holder(s: RegistryView, i: int, j: int)
    requires
        s.wf(),
        0 <= i < s.accounts.len(),
        0 <= j < s.accounts.len(),
        !s.accounts[i].frozen && s.accounts[i].balance > 0,
        !s.accounts[j].frozen && s.accounts[j].balance > 0,
    ensures
        i == j,
        s.spec_holder() == Some(s.accounts[i].owner),
{
    assert(s.spec_holder() == Some(s.accounts[i].owner));
    assert(s.spec_holder() == Some(s.accounts[j].owner));
    if i != j {
        assert(s.accounts[i].owner != s.accounts[j].owner);
    }
}

/// Exclusivity over every reachable state: after any sequence of operations
/// on a fresh registry, at most one non-frozen account holds a non-zero
/// balance, and it belongs to the current holder.
pub proof fn lemma_exclusivity(
    program_key: Address,
    mint_key: Address,
    mint_authority_key: Address,
    ops: Seq<RegistryOp>,
    i: int,
    j: int,
)
    requires
        0 <= i < run_ops(initial_registry(program_key, mint_key, mint_authority_key), ops).accounts.len(),
        0 <= j < run_ops(initial_registry(program_key, mint_key, mint_authority_key), ops).accounts.len(),
        !run_ops(initial_registry(program_key, mint_key, mint_authority_key), ops).accounts[i].frozen,
        run_ops(initial_registry(program_key, mint_key, mint_authority_key), ops).accounts[i].balance > 0,
        !run_ops(initial_registry(program_key, mint_key, mint_authority_key), ops).accounts[j].frozen,
        run_ops(initial_registry(program_key, mint_key, mint_authority_key), ops).accounts[j].balance > 0,
    ensures
        i == j,
{
    let s0 = initial_registry(program_key, mint_key, mint_authority_key);
    lemma_run_ops_wf(s0, ops);
    lemma_exclusive_holder(run_ops(s0, ops), i, j);
}

/// Recovery bound: a successful recovery burns exactly the fixed unit amount
/// and never takes a balance below zero, and a frozen account whose canonical
/// address was supplied but whose balance is under the fixed amount is
/// rejected with `InsufficientBalance` — leaving the state unchanged, as
/// `outcome_state` records.
pub proof fn lemma_recovery_bound(s: RegistryView, owner: Address, account_key: Address)
    requires
        s.wf(),
    ensures
        spec_thaw(s, owner, account_key) matches Ok(v) ==> {
            &&& s.account_of(owner).balance >= MEMBERSHIP_UNITS
            &&& v.account_of(owner).balance == s.account_of(owner).balance - MEMBERSHIP_UNITS
        },
        (spec_thaw(s, owner, account_key) matches Err(e) && e == RegistryError::InsufficientBalance)
            <==> {
            &&& s.has_account(owner)
            &&& account_key@ == crate::derivation::holder_account_key_of(owner@, s.mint_key@)
            &&& s.account_of(owner).frozen
            &&& s.authority_controls_mint()
            &&& s.account_of(owner).balance < MEMBERSHIP_UNITS
        },
{
    match spec_thaw(s, owner, account_key) {
        Ok(v) => {
            lemma_thaw_wf(s, owner, account_key);
            let i = s.account_index(owner);
            assert(0 <= i < s.accounts.len() && s.accounts[i].owner == owner);
            assert(v.accounts[i].owner == owner);
            crate::registry::lemma_account_index_unique(v, owner, i);
        },
        Err(_) => {},
    }
}

/// Re-entry after recovery: a successful recovery leaves the account able to
/// send and receive again (not frozen), but conveys no membership claim — the
/// record is untouched, so an owner who was not the holder before the
/// recovery is not the holder after it.
pub proof fn lemma_recovery_no_claim(s: RegistryView, owner: Address, account_key: Address)
    requires
        s.wf(),
        spec_thaw(s, owner, account_key) is Ok,
    ensures
        spec_thaw(s, owner, account_key) matches Ok(v) ==> {
            &&& !v.account_of(owner).frozen
            &&& v.record == s.record
            &&& (s.spec_holder() != Some(owner) ==> v.spec_holder() != Some(owner))
        },
{
    match spec_thaw(s, owner, account_key) {
        Ok(v) => {
            lemma_thaw_wf(s, owner, account_key);
            let i = s.account_index(owner);
            assert(0 <= i < s.accounts.len() && s.accounts[i].owner == owner);
            assert(v.accounts[i].owner == owner);
            crate::registry::lemma_account_index_unique(v, owner, i);
        },
        Err(_) => {},
    }
}

/// Conflicting claims: of two claims prepared against the same observed
/// holder, at most one commits. Once the first claim hands the membership to
/// a new holder, the second — still naming the now-stale holder — is rejected
/// with `AccountMismatch` and, every operation being atomic, has no effect.
pub proof fn lemma_conflicting_claims(
    s: RegistryView,
    first: ClaimAuthorization,
    first_account_key: Address,
    second: ClaimAuthorization,
    second_account_key: Address,
    observed_holder: Address,
    observed_holder_account_key: Address,
)
    requires
        s.wf(),
        first.claimant != observed_holder,
        spec_claim_membership(
            s,
            first,
            first_account_key,
            observed_holder,
            observed_holder_account_key,
        ) is Ok,
    ensures
        spec_claim_membership(
            s,
            first,
            first_account_key,
            observed_holder,
            observed_holder_account_key,
        ) matches Ok(v) ==> spec_claim_membership(
            v,
            second,
            second_account_key,
            observed_holder,
            observed_holder_account_key,
        ) == Err::<RegistryView, RegistryError>(RegistryError::AccountMismatch),
{
    match spec_claim_membership(
        s,
        first,
        first_account_key,
        observed_holder,
        observed_holder_account_key,
    ) {
        Ok(v) => {
            assert(v.spec_holder() == Some(first.claimant));
        },
        Err(_) => {},
    }
}

} // verus!
