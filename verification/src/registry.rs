//! The membership registry state machine.
//!
//! A `Registry` models one governance asset class together with its singleton
//! asset authority, its membership record, and every per-holder asset account
//! of that class. The four operations — `initialize`, `create_membership`,
//! `claim_membership` and `thaw_governance_token_account` — are each atomic:
//! they either apply every listed effect or return an error and change
//! nothing.
//!
//! The well-formedness predicate [`RegistryView::wf`] carries the
//! membership-exclusivity guarantee the registry exists to enforce: at most
//! one non-frozen account holds a non-zero balance, and that account belongs
//! to the current holder of the membership record.

use vstd::prelude::*;

use crate::address::{address_from_words, lemma_address_view_injective, Address};
use crate::derivation::{
    authority_seed, derive_authority_address, derive_holder_account_key, holder_account_key_of,
    program_address_of,
};
use crate::errors::RegistryError;

verus! {

/// Proof-of-membership units minted by a registration or a claim, and burned
/// by a recovery.
pub const MEMBERSHIP_UNITS: u64 = 100;

/// A per-holder balance record of the governance asset class.
#[derive(Clone, Copy, Debug, PartialEq, Eq, Structural)]
pub struct AssetAccount {
    /// The principal whose balance this account records.
    pub owner: Address,
    /// Non-negative count of proof-of-membership units.
    pub balance: u64,
    /// While true, the account can neither send nor receive units; only the
    /// asset authority may change this flag.
    pub frozen: bool,
}

/// The persistent membership record: who currently holds the membership.
#[derive(Clone, Copy, Debug, PartialEq, Eq, Structural)]
pub struct Membership {
    /// The creator whose identity salts the record's derived storage address;
    /// fixed at registration.
    pub creator: Address,
    /// The principal that most recently completed a successful claim, or the
    /// creator if the membership was never claimed.
    pub current_holder: Address,
}

/// The singleton capability record with the exclusive right to mint, freeze
/// and thaw accounts of the governance asset class.
#[derive(Clone, Copy, Debug, PartialEq, Eq, Structural)]
pub struct MintAuthority {
    /// The authority's derived storage address.
    pub key: Address,
    /// The bump-seed proof that re-derives the authority's signing capability.
    pub bump: u8,
}

/// An externally validated entitlement to claim the membership, naming the
/// claimant. The registry does not check how the entitlement was obtained:
/// which principals may claim is an open, externally enforced precondition,
/// and callers plug whatever scheme decides it into this value.
#[derive(Clone, Copy, Debug, PartialEq, Eq, Structural)]
pub struct ClaimAuthorization {
    /// The principal this entitlement allows to claim the membership.
    pub claimant: Address,
}

/// The registry: one governance asset class, its authority, its membership
/// record, and all holder accounts of the class.
#[derive(Clone, Debug, PartialEq, Eq)]
pub struct Registry {
    /// The registry program's own identity, under which addresses are derived.
    pub program_key: Address,
    /// The governance asset (mint) address.
    pub mint_key: Address,
    /// The supply controller configured on the asset; mints succeed only when
    /// it equals the derived asset authority address.
    pub mint_authority_key: Address,
    /// The singleton asset authority, `None` until `initialize`.
    pub authority: Option<MintAuthority>,
    /// The membership record, `None` until `create_membership`.
    pub record: Option<Membership>,
    /// Every holder asset account of the governance asset class.
    pub accounts: Vec<AssetAccount>,
}

/// The mathematical value of a [`Registry`].
#[verifier::ext_equal]
pub struct RegistryView {
    pub program_key: Address,
    pub mint_key: Address,
    pub mint_authority_key: Address,
    pub authority: Option<MintAuthority>,
    pub record: Option<Membership>,
    pub accounts: Seq<AssetAccount>,
}

impl View for Registry {
    type V = RegistryView;

    open spec fn view(&self) -> RegistryView {
        RegistryView {
            program_key: self.program_key,
            mint_key: self.mint_key,
            mint_authority_key: self.mint_authority_key,
            authority: self.authority,
            record: self.record,
            accounts: self.accounts@,
        }
    }
}

/// No two accounts record a balance for the same owner.
pub open spec fn owners_unique(s: Seq<AssetAccount>) -> bool {
    forall|i: int, j: int|
        0 <= i < s.len() && 0 <= j < s.len() && i != j ==> #[trigger] s[i].owner != #[trigger] s[j].owner
}

/// What well-formedness requires of a single account, given the current
/// holder of the membership record (`None` while no record exists).
pub open spec fn account_ok(holder: Option<Address>, a: AssetAccount) -> bool {
    &&& (!a.frozen ==> a.balance <= MEMBERSHIP_UNITS)
    &&& (a.frozen ==> a.balance <= 2 * MEMBERSHIP_UNITS)
    &&& (holder is None ==> a.balance == 0 && !a.frozen)
    &&& (!a.frozen && a.balance > 0 ==> holder == Some(a.owner))
    &&& (a.frozen && a.balance > MEMBERSHIP_UNITS ==> holder == Some(a.owner))
}

impl RegistryView {
    /// The current holder of the membership, if a record exists.
    pub open spec fn spec_holder(self) -> Option<Address> {
        match self.record {
            Some(m) => Some(m.current_holder),
            None => None,
        }
    }

    /// Whether some account records a balance for `owner`.
    pub open spec fn has_account(self, owner: Address) -> bool {
        exists|i: int| 0 <= i < self.accounts.len() && #[trigger] self.accounts[i].owner == owner
    }

    /// The index of `owner`'s account; unique under `wf`.
    pub open spec fn account_index(self, owner: Address) -> int {
        choose|i: int| 0 <= i < self.accounts.len() && #[trigger] self.accounts[i].owner == owner
    }

    /// `owner`'s account.
    pub open spec fn account_of(self, owner: Address) -> AssetAccount {
        self.accounts[self.account_index(owner)]
    }

    /// Whether the asset's configured supply controller is the derived asset
    /// authority, so that capability-gated mints, freezes and thaws succeed.
    pub open spec fn authority_controls_mint(self) -> bool {
        match self.authority {
            Some(a) => self.mint_authority_key == a.key,
            None => false,
        }
    }

    /// Well-formedness: owners are unique; while no record exists every
    /// account is empty and unfrozen; a non-frozen account never exceeds the
    /// fixed unit amount and a frozen one never exceeds twice that amount; a
    /// non-frozen account with a positive balance — and a frozen account
    /// above the fixed amount — can only belong to the current holder; and
    /// the current holder always has an account.
    pub open spec fn wf(self) -> bool {
        &&& owners_unique(self.accounts)
        &&& forall|i: int|
            0 <= i < self.accounts.len() ==> account_ok(self.spec_holder(), #[trigger] self.accounts[i])
        &&& (self.record matches Some(m) ==> self.has_account(m.current_holder))
    }
}

/// In a well-formed registry an owner's account sits at exactly one index.
pub proof fn lemma_account_index_unique(s: RegistryView, owner: Address, i: int)
    requires
        owners_unique(s.accounts),
        0 <= i < s.accounts.len(),
        s.accounts[i].owner == owner,
    ensures
        s.has_account(owner),
        s.account_index(owner) == i,
{
    assert(s.has_account(owner));
    let j = s.account_index(owner);
    assert(0 <= j < s.accounts.len() && s.accounts[j].owner == owner);
    if i != j {
        assert(s.accounts[i].owner != s.accounts[j].owner);
    }
}

/// The fresh registry: no authority, no record, no accounts.
pub open spec fn initial_registry(
    program_key: Address,
    mint_key: Address,
    mint_authority_key: Address,
) -> RegistryView {
    RegistryView {
        program_key,
        mint_key,
        mint_authority_key,
        authority: None,
        record: None,
        accounts: Seq::empty(),
    }
}

/// Effect of `initialize` on a registry value: create the singleton asset
/// authority at its derived address, or fail with `AlreadyInitialized` if it
/// exists, or with `AuthorityMismatch` if no signing capability can be
/// derived for it.
pub open spec fn spec_initialize(s: RegistryView) -> Result<RegistryView, RegistryError> {
    if s.authority is Some {
        Err(RegistryError::AlreadyInitialized)
    } else {
        match program_address_of(authority_seed(), s.program_key@) {
            Some(p) => Ok(
                RegistryView {
                    authority: Some(MintAuthority { key: address_from_words(p.0), bump: p.1 }),
                    ..s
                },
            ),
            None => Err(RegistryError::AuthorityMismatch),
        }
    }
}

/// Effect of `ensure_account`: open an empty, unfrozen account for `owner`
/// if none exists; do nothing otherwise.
pub open spec fn spec_ensure_account(s: RegistryView, owner: Address) -> RegistryView {
    if s.has_account(owner) {
        s
    } else {
        RegistryView {
            accounts: s.accounts.push(AssetAccount { owner, balance: 0, frozen: false }),
            ..s
        }
    }
}

/// Effect of `create_membership`: create the membership record pointing at
/// `creator` and mint the fixed unit amount into the creator's account.
/// Fails with `DuplicateMembership` if a record already exists, with
/// `AccountMismatch` if the creator has no account or the supplied account
/// address is not the canonical derived one, with `AuthorityMismatch` if the
/// asset authority does not exist, and with `MintAuthorityMismatch` if the
/// asset's supply controller is not the asset authority.
pub open spec fn spec_create_membership(
    s: RegistryView,
    creator: Address,
    creator_account_key: Address,
) -> Result<RegistryView, RegistryError> {
    if s.record is Some {
        Err(RegistryError::DuplicateMembership)
    } else if !s.has_account(creator)
        || creator_account_key@ != holder_account_key_of(creator@, s.mint_key@) {
        Err(RegistryError::AccountMismatch)
    } else if s.authority is None {
        Err(RegistryError::AuthorityMismatch)
    } else if !s.authority_controls_mint() {
        Err(RegistryError::MintAuthorityMismatch)
    } else {
        let i = s.account_index(creator);
        let a = s.accounts[i];
        Ok(
            RegistryView {
                record: Some(Membership { creator, current_holder: creator }),
                accounts: s.accounts.update(
                    i,
                    AssetAccount { balance: (a.balance + MEMBERSHIP_UNITS) as u64, ..a },
                ),
                ..s
            },
        )
    }
}

/// Effect of `claim_membership`: mint the fixed unit amount into the
/// claimant's account, repoint the record at the claimant, and freeze the
/// previous holder's account — as one atomic unit. Fails with
/// `AccountMismatch` if the record is missing or the caller observed a stale
/// holder, if either supplied account address is not the canonical derived
/// one, or if the claimant has no account; with `AlreadyFrozen` if the
/// claimant's account is frozen, or if the previous holder's account is
/// already frozen; and with `AuthorityMismatch` if the asset authority is
/// missing or does not control the asset.
pub open spec fn spec_claim_membership(
    s: RegistryView,
    authorization: ClaimAuthorization,
    claimant_account_key: Address,
    prior_holder: Address,
    prior_holder_account_key: Address,
) -> Result<RegistryView, RegistryError> {
    let claimant = authorization.claimant;
    match s.record {
        None => Err(RegistryError::AccountMismatch),
        Some(m) => {
            if m.current_holder != prior_holder {
                Err(RegistryError::AccountMismatch)
            } else if prior_holder_account_key@ != holder_account_key_of(
                prior_holder@,
                s.mint_key@,
            ) {
                Err(RegistryError::AccountMismatch)
            } else if !s.has_account(claimant)
                || claimant_account_key@ != holder_account_key_of(claimant@, s.mint_key@) {
                Err(RegistryError::AccountMismatch)
            } else if s.account_of(claimant).frozen {
                Err(RegistryError::AlreadyFrozen)
            } else if !s.authority_controls_mint() {
                Err(RegistryError::AuthorityMismatch)
            } else if s.account_of(prior_holder).frozen {
                Err(RegistryError::AlreadyFrozen)
            } else {
                let ci = s.account_index(claimant);
                let ca = s.accounts[ci];
                let minted = s.accounts.update(
                    ci,
                    AssetAccount { balance: (ca.balance + MEMBERSHIP_UNITS) as u64, ..ca },
                );
                let hi = s.account_index(prior_holder);
                let frozen = minted.update(hi, AssetAccount { frozen: true, ..minted[hi] });
                Ok(
                    RegistryView {
                        record: Some(Membership { creator: m.creator, current_holder: claimant }),
                        accounts: frozen,
                        ..s
                    },
                )
            }
        },
    }
}

/// Effect of `thaw_governance_token_account`: thaw `owner`'s frozen account
/// and burn the fixed unit amount from it — as one atomic unit. Fails with
/// `AccountMismatch` if the owner has no account or the supplied account
/// address is not the canonical derived one, with `AccountNotFrozen` if the
/// account is not frozen, with `AuthorityMismatch` if the asset authority is
/// missing or does not control the asset, and with `InsufficientBalance` if
/// the balance is below the fixed amount — never reducing a balance below
/// zero.
pub open spec fn spec_thaw(
    s: RegistryView,
    owner: Address,
    account_key: Address,
) -> Result<RegistryView, RegistryError> {
    if !s.has_account(owner) || account_key@ != holder_account_key_of(owner@, s.mint_key@) {
        Err(RegistryError::AccountMismatch)
    } else if !s.account_of(owner).frozen {
        Err(RegistryError::AccountNotFrozen)
    } else if !s.authority_controls_mint() {
        Err(RegistryError::AuthorityMismatch)
    } else if s.account_of(owner).balance < MEMBERSHIP_UNITS {
        Err(RegistryError::InsufficientBalance)
    } else {
        let i = s.account_index(owner);
        let a = s.accounts[i];
        Ok(
            RegistryView {
                accounts: s.accounts.update(
                    i,
                    AssetAccount {
                        balance: (a.balance - MEMBERSHIP_UNITS) as u64,
                        frozen: false,
                        ..a
                    },
                ),
                ..s
            },
        )
    }
}

/// `initialize` preserves well-formedness: it touches no account and no
/// record.
pub proof fn lemma_initialize_wf(s: RegistryView)
    requires
        s.wf(),
    ensures
        spec_initialize(s) matches Ok(v) ==> v.wf(),
{
    match spec_initialize(s) {
        Ok(v) => {
            assert(v.accounts == s.accounts);
            assert(v.spec_holder() == s.spec_holder());
        },
        Err(_) => {},
    }
}

/// `ensure_account` preserves well-formedness: a new account is empty,
/// unfrozen, and its owner was not present before.
pub proof fn lemma_ensure_account_wf(s: RegistryView, owner: Address)
    requires
        s.wf(),
    ensures
        spec_ensure_account(s, owner).wf(),
{
    let v = spec_ensure_account(s, owner);
    if !s.has_account(owner) {
        let n = s.accounts.len() as int;
        assert forall|i: int, j: int|
            0 <= i < v.accounts.len() && 0 <= j < v.accounts.len() && i != j implies #[trigger] v
            .accounts[i].owner != #[trigger] v.accounts[j].owner by {
            if i < n && j < n {
                assert(s.accounts[i].owner != s.accounts[j].owner);
            } else if i == n {
                assert(v.accounts[j] == s.accounts[j]);
            } else {
                assert(v.accounts[i] == s.accounts[i]);
            }
        }
        assert forall|i: int| 0 <= i < v.accounts.len() implies account_ok(
            v.spec_holder(),
            #[trigger] v.accounts[i],
        ) by {
            if i < n {
                assert(v.accounts[i] == s.accounts[i]);
                assert(account_ok(s.spec_holder(), s.accounts[i]));
            }
        }
        match v.record {
            Some(m) => {
                let w = s.account_index(m.current_holder);
                assert(s.accounts[w].owner == m.current_holder);
                assert(v.accounts[w].owner == m.current_holder);
            },
            None => {},
        }
    }
}

/// `create_membership` preserves well-formedness: while no record exists
/// every account is empty, so the creator ends with exactly the fixed unit
/// amount and everyone else with nothing.
pub proof fn lemma_create_membership_wf(s: RegistryView, creator: Address, creator_account_key: Address)
    requires
        s.wf(),
    ensures
        spec_create_membership(s, creator, creator_account_key) matches Ok(v) ==> v.wf(),
{
    match spec_create_membership(s, creator, creator_account_key) {
        Ok(v) => {
            let i = s.account_index(creator);
            assert(0 <= i < s.accounts.len() && s.accounts[i].owner == creator);
            assert forall|k: int| 0 <= k < v.accounts.len() implies #[trigger] v.accounts[k].owner
                == s.accounts[k].owner by {}
            assert forall|a: int, b: int|
                0 <= a < v.accounts.len() && 0 <= b < v.accounts.len() && a != b implies #[trigger] v
                .accounts[a].owner != #[trigger] v.accounts[b].owner by {
                assert(s.accounts[a].owner != s.accounts[b].owner);
            }
            assert forall|k: int| 0 <= k < v.accounts.len() implies account_ok(
                v.spec_holder(),
                #[trigger] v.accounts[k],
            ) by {
                assert(account_ok(s.spec_holder(), s.accounts[k]));
            }
            assert(v.accounts[i].owner == creator);
            assert(v.has_account(creator));
        },
        Err(_) => {},
    }
}

/// `claim_membership` preserves well-formedness — in particular exclusivity:
/// after a claim the only non-frozen account with a positive balance is the
/// claimant's, because the previous holder's account is frozen and, by the
/// invariant, nobody else held a positive non-frozen balance.
pub proof fn lemma_claim_membership_wf(
    s: RegistryView,
    authorization: ClaimAuthorization,
    claimant_account_key: Address,
    prior_holder: Address,
    prior_holder_account_key: Address,
)
    requires
        s.wf(),
    ensures
        spec_claim_membership(
            s,
            authorization,
            claimant_account_key,
            prior_holder,
            prior_holder_account_key,
        ) matches Ok(v) ==> v.wf(),
{
    let r = spec_claim_membership(
        s,
        authorization,
        claimant_account_key,
        prior_holder,
        prior_holder_account_key,
    );
    match r {
        Ok(v) => {
            match s.record {
                None => {
                    assert(false);
                },
                Some(m) => {
                    let claimant = authorization.claimant;
                    let ci = s.account_index(claimant);
                    let hi = s.account_index(prior_holder);
                    assert(s.has_account(claimant));
                    assert(0 <= ci < s.accounts.len() && s.accounts[ci].owner == claimant);
                    assert(s.has_account(m.current_holder));
                    assert(0 <= hi < s.accounts.len() && s.accounts[hi].owner == prior_holder);
                    let ca = s.accounts[ci];
                    let ha = s.accounts[hi];
                    assert(account_ok(s.spec_holder(), ca));
                    assert(account_ok(s.spec_holder(), ha));
                    let minted = s.accounts.update(
                        ci,
                        AssetAccount { balance: (ca.balance + MEMBERSHIP_UNITS) as u64, ..ca },
                    );
                    let fin = minted.update(hi, AssetAccount { frozen: true, ..minted[hi] });
                    assert(v.accounts == fin);
                    assert(v.spec_holder() == Some(claimant));
                    assert forall|k: int| 0 <= k < fin.len() implies #[trigger] fin[k].owner
                        == s.accounts[k].owner by {}
                    assert forall|a: int, b: int|
                        0 <= a < fin.len() && 0 <= b < fin.len() && a != b implies #[trigger] fin[a].owner
                        != #[trigger] fin[b].owner by {
                        assert(s.accounts[a].owner != s.accounts[b].owner);
                    }
                    if ci != hi {
                        assert(s.accounts[ci].owner != s.accounts[hi].owner);
                        if ca.balance > 0 {
                            assert(s.spec_holder() == Some(claimant));
                            assert(claimant == m.current_holder);
                            assert(false);
                        }
                    }
                    assert forall|k: int| 0 <= k < fin.len() implies account_ok(
                        v.spec_holder(),
                        #[trigger] fin[k],
                    ) by {
                        assert(account_ok(s.spec_holder(), s.accounts[k]));
                        if k == hi {
                        } else if k == ci {
                        } else {
                            let a = s.accounts[k];
                            assert(fin[k] == a);
                            if !a.frozen && a.balance > 0 {
                                assert(s.spec_holder() == Some(a.owner));
                                assert(a.owner == prior_holder);
                                assert(s.accounts[k].owner != s.accounts[hi].owner);
                                assert(false);
                            }
                            if a.frozen && a.balance > MEMBERSHIP_UNITS {
                                assert(s.spec_holder() == Some(a.owner));
                                assert(a.owner == prior_holder);
                                assert(s.accounts[k].owner != s.accounts[hi].owner);
                                assert(false);
                            }
                        }
                    }
                    assert(fin[ci].owner == claimant);
                    assert(v.has_account(claimant));
                },
            }
        },
        Err(_) => {},
    }
}

/// `thaw_governance_token_account` preserves well-formedness: the thawed
/// account keeps a positive balance only if its owner is the current holder
/// (who alone can have been frozen above the fixed amount), and the record is
/// untouched.
pub proof fn lemma_thaw_wf(s: RegistryView, owner: Address, account_key: Address)
    requires
        s.wf(),
    ensures
        spec_thaw(s, owner, account_key) matches Ok(v) ==> v.wf(),
{
    match spec_thaw(s, owner, account_key) {
        Ok(v) => {
            let i = s.account_index(owner);
            assert(s.has_account(owner));
            assert(0 <= i < s.accounts.len() && s.accounts[i].owner == owner);
            let a = s.accounts[i];
            assert(account_ok(s.spec_holder(), a));
            assert forall|k: int| 0 <= k < v.accounts.len() implies #[trigger] v.accounts[k].owner
                == s.accounts[k].owner by {}
            assert forall|x: int, y: int|
                0 <= x < v.accounts.len() && 0 <= y < v.accounts.len() && x != y implies #[trigger] v
                .accounts[x].owner != #[trigger] v.accounts[y].owner by {
                assert(s.accounts[x].owner != s.accounts[y].owner);
            }
            assert forall|k: int| 0 <= k < v.accounts.len() implies account_ok(
                v.spec_holder(),
                #[trigger] v.accounts[k],
            ) by {
                assert(account_ok(s.spec_holder(), s.accounts[k]));
            }
            match v.record {
                Some(m) => {
                    let w = s.account_index(m.current_holder);
                    assert(s.accounts[w].owner == m.current_holder);
                    assert(v.accounts[w].owner == m.current_holder);
                },
                None => {},
            }
        },
        Err(_) => {},
    }
}

impl Registry {
    /// A fresh registry for one governance asset class: no authority, no
    /// record, no accounts. `mint_authority_key` is the supply controller the
    /// asset was configured with at its own bootstrap.
    pub fn new(program_key: Address, mint_key: Address, mint_authority_key: Address) -> (r:
        Registry)
        ensures
            r@ == initial_registry(program_key, mint_key, mint_authority_key),
            r@.wf(),
    {
        let r = Registry {
            program_key,
            mint_key,
            mint_authority_key,
            authority: None,
            record: None,
            accounts: Vec::new(),
        };
        proof {
            assert(r@ =~= initial_registry(program_key, mint_key, mint_authority_key));
        }
        r
    }

    /// Looks up the index of `owner`'s account, if any.
    fn find_account(&self, owner: Address) -> (r: Option<usize>)
        ensures
            match r {
                Some(i) => i < self.accounts@.len() && self.accounts@[i as int].owner == owner,
                None => !self@.has_account(owner),
            },
    {
        let mut k: usize = 0;
        while k < self.accounts.len()
            invariant
                k <= self.accounts@.len(),
                forall|j: int| 0 <= j < k ==> #[trigger] self.accounts@[j].owner != owner,
            decreases self.accounts@.len() - k,
        {
            if self.accounts[k].owner == owner {
                return Some(k);
            }
            k = k + 1;
        }
        None
    }

    /// Creates the singleton asset authority record at its derived address,
    /// storing the bump-seed proof needed to re-derive its signing capability.
    pub fn initialize(&mut self) -> (r: Result<(), RegistryError>)
        requires
            old(self)@.wf(),
        ensures
            final(self)@.wf(),
            r is Err ==> final(self)@ == old(self)@,
            match spec_initialize(old(self)@) {
                Ok(v) => r is Ok && final(self)@ == v,
                Err(e) => r == Err::<(), RegistryError>(e) && final(self)@ == old(self)@,
            },
    {
        if self.authority.is_some() {
            return Err(RegistryError::AlreadyInitialized);
        }
        match derive_authority_address(&self.program_key) {
            None => Err(RegistryError::AuthorityMismatch),
            Some(kb) => {
                let key = kb.0;
                let bump = kb.1;
                self.authority = Some(MintAuthority { key, bump });
                proof {
                    lemma_initialize_wf(old(self)@);
                    assert(address_from_words(key@) == key);
                    match spec_initialize(old(self)@) {
                        Ok(v) => {
                            assert(self@ =~= v);
                        },
                        Err(_) => {
                            assert(false);
                        },
                    }
                }
                Ok(())
            },
        }
    }

    /// Opens an empty, unfrozen asset account for `owner` if none exists, and
    /// returns the canonical derived address of `owner`'s account.
    pub fn ensure_account(&mut self, owner: Address) -> (r: Address)
        requires
            old(self)@.wf(),
        ensures
            final(self)@.wf(),
            final(self)@ == spec_ensure_account(old(self)@, owner),
            r@ == holder_account_key_of(owner@, old(self)@.mint_key@),
    {
        let key = derive_holder_account_key(&owner, &self.mint_key);
        let found = self.find_account(owner);
        if found.is_none() {
            self.accounts.push(AssetAccount { owner, balance: 0, frozen: false });
        }
        proof {
            lemma_ensure_account_wf(old(self)@, owner);
            assert(self@ =~= spec_ensure_account(old(self)@, owner));
        }
        key
    }

    /// Creates the membership record with `creator` as its first holder and
    /// mints the fixed unit amount into the creator's asset account, as one
    /// atomic unit.
    pub fn create_membership(&mut self, creator: Address, creator_account_key: Address) -> (r:
        Result<(), RegistryError>)
        requires
            old(self)@.wf(),
        ensures
            final(self)@.wf(),
            r is Err ==> final(self)@ == old(self)@,
            r is Ok ==> final(self)@.spec_holder() == Some(creator),
            match spec_create_membership(old(self)@, creator, creator_account_key) {
                Ok(v) => r is Ok && final(self)@ == v,
                Err(e) => r == Err::<(), RegistryError>(e) && final(self)@ == old(self)@,
            },
    {
        if self.record.is_some() {
            return Err(RegistryError::DuplicateMembership);
        }
        let ci = match self.find_account(creator) {
            Some(i) => i,
            None => {
                return Err(RegistryError::AccountMismatch);
            },
        };
        proof {
            lemma_account_index_unique(self@, creator, ci as int);
        }
        let derived = derive_holder_account_key(&creator, &self.mint_key);
        proof {
            lemma_address_view_injective(creator_account_key, derived);
        }
        if creator_account_key != derived {
            return Err(RegistryError::AccountMismatch);
        }
        let auth = match self.authority {
            Some(a) => a,
            None => {
                return Err(RegistryError::AuthorityMismatch);
            },
        };
        if self.mint_authority_key != auth.key {
            return Err(RegistryError::MintAuthorityMismatch);
        }
        proof {
            assert(account_ok(old(self)@.spec_holder(), old(self)@.accounts[ci as int]));
        }
        let mut ca = self.accounts[ci];
        ca.balance = ca.balance + MEMBERSHIP_UNITS;
        self.accounts[ci] = ca;
        self.record = Some(Membership { creator, current_holder: creator });
        proof {
            lemma_create_membership_wf(old(self)@, creator, creator_account_key);
            match spec_create_membership(old(self)@, creator, creator_account_key) {
                Ok(v) => {
                    assert(self@ =~= v);
                },
                Err(_) => {
                    assert(false);
                },
            }
        }
        Ok(())
    }

    /// Transfers the membership to the claimant named by `authorization`, as
    /// one atomic unit: mints the fixed unit amount into the claimant's
    /// account, repoints the record at the claimant, and freezes the previous
    /// holder's account. `prior_holder` is the holder the caller observed
    /// when preparing the call; if the record has moved on since, the claim
    /// is rejected with no effect, so of two conflicting claims at most one
    /// commits. Whether the claimant is entitled to the membership is decided
    /// outside the registry (see [`ClaimAuthorization`]).
    pub fn claim_membership(
        &mut self,
        authorization: &ClaimAuthorization,
        claimant_account_key: Address,
        prior_holder: Address,
        prior_holder_account_key: Address,
    ) -> (r: Result<(), RegistryError>)
        requires
            old(self)@.wf(),
        ensures
            final(self)@.wf(),
            r is Err ==> final(self)@ == old(self)@,
            r is Ok ==> final(self)@.spec_holder() == Some(authorization.claimant),
            match spec_claim_membership(
                old(self)@,
                *authorization,
                claimant_account_key,
                prior_holder,
                prior_holder_account_key,
            ) {
                Ok(v) => r is Ok && final(self)@ == v,
                Err(e) => r == Err::<(), RegistryError>(e) && final(self)@ == old(self)@,
            },
    {
        let m = match self.record {
            Some(m) => m,
            None => {
                return Err(RegistryError::AccountMismatch);
            },
        };
        if m.current_holder != prior_holder {
            return Err(RegistryError::AccountMismatch);
        }
        let derived_prior = derive_holder_account_key(&prior_holder, &self.mint_key);
        proof {
            lemma_address_view_injective(prior_holder_account_key, derived_prior);
        }
        if prior_holder_account_key != derived_prior {
            return Err(RegistryError::AccountMismatch);
        }
        let claimant = authorization.claimant;
        let ci = match self.find_account(claimant) {
            Some(i) => i,
            None => {
                return Err(RegistryError::AccountMismatch);
            },
        };
        proof {
            lemma_account_index_unique(self@, claimant, ci as int);
        }
        let derived_claimant = derive_holder_account_key(&claimant, &self.mint_key);
        proof {
            lemma_address_view_injective(claimant_account_key, derived_claimant);
        }
        if claimant_account_key != derived_claimant {
            return Err(RegistryError::AccountMismatch);
        }
        if self.accounts[ci].frozen {
            return Err(RegistryError::AlreadyFrozen);
        }
        let auth = match self.authority {
            Some(a) => a,
            None => {
                return Err(RegistryError::AuthorityMismatch);
            },
        };
        if self.mint_authority_key != auth.key {
            return Err(RegistryError::AuthorityMismatch);
        }
        let hi = match self.find_account(prior_holder) {
            Some(i) => i,
            None => {
                proof {
                    assert(old(self)@.has_account(m.current_holder));
                    assert(false);
                }
                return Err(RegistryError::AccountMismatch);
            },
        };
        proof {
            lemma_account_index_unique(self@, prior_holder, hi as int);
        }
        if self.accounts[hi].frozen {
            return Err(RegistryError::AlreadyFrozen);
        }
        proof {
            assert(account_ok(old(self)@.spec_holder(), old(self)@.accounts[ci as int]));
        }
        let mut ca = self.accounts[ci];
        ca.balance = ca.balance + MEMBERSHIP_UNITS;
        self.accounts[ci] = ca;
        let mut ha = self.accounts[hi];
        ha.frozen = true;
        self.accounts[hi] = ha;
        self.record = Some(Membership { creator: m.creator, current_holder: claimant });
        proof {
            lemma_claim_membership_wf(
                old(self)@,
                *authorization,
                claimant_account_key,
                prior_holder,
                prior_holder_account_key,
            );
            match spec_claim_membership(
                old(self)@,
                *authorization,
                claimant_account_key,
                prior_holder,
                prior_holder_account_key,
            ) {
                Ok(v) => {
                    assert(self@ =~= v);
                },
                Err(_) => {
                    assert(false);
                },
            }
        }
        Ok(())
    }

    /// Recovers transferability of `owner`'s frozen account, as one atomic
    /// unit: thaws the account and burns the fixed unit amount from it. The
    /// burn never reduces the balance below zero: a balance under the fixed
    /// amount is rejected with `InsufficientBalance` and no state change.
    /// After recovery the account can send and receive again but conveys no
    /// membership claim: the record is untouched.
    pub fn thaw_governance_token_account(&mut self, owner: Address, account_key: Address) -> (r:
        Result<(), RegistryError>)
        requires
            old(self)@.wf(),
        ensures
            final(self)@.wf(),
            r is Err ==> final(self)@ == old(self)@,
            final(self)@.record == old(self)@.record,
            match spec_thaw(old(self)@, owner, account_key) {
                Ok(v) => r is Ok && final(self)@ == v,
                Err(e) => r == Err::<(), RegistryError>(e) && final(self)@ == old(self)@,
            },
    {
        let i = match self.find_account(owner) {
            Some(i) => i,
            None => {
                return Err(RegistryError::AccountMismatch);
            },
        };
        proof {
            lemma_account_index_unique(self@, owner, i as int);
        }
        let derived = derive_holder_account_key(&owner, &self.mint_key);
        proof {
            lemma_address_view_injective(account_key, derived);
        }
        if account_key != derived {
            return Err(RegistryError::AccountMismatch);
        }
        if !self.accounts[i].frozen {
            return Err(RegistryError::AccountNotFrozen);
        }
        let auth = match self.authority {
            Some(a) => a,
            None => {
                return Err(RegistryError::AuthorityMismatch);
            },
        };
        if self.mint_authority_key != auth.key {
            return Err(RegistryError::AuthorityMismatch);
        }
        if self.accounts[i].balance < MEMBERSHIP_UNITS {
            return Err(RegistryError::InsufficientBalance);
        }
        let mut a = self.accounts[i];
        a.balance = a.balance - MEMBERSHIP_UNITS;
        a.frozen = false;
        self.accounts[i] = a;
        proof {
            lemma_thaw_wf(old(self)@, owner, account_key);
            match spec_thaw(old(self)@, owner, account_key) {
                Ok(v) => {
                    assert(self@ =~= v);
                },
                Err(_) => {
                    assert(false);
                },
            }
        }
        Ok(())
    }

    /// The current holder of the membership, if a record exists.
    pub fn current_holder(&self) -> (r: Option<Address>)
        ensures
            r == self@.spec_holder(),
    {
        match self.record {
            Some(m) => Some(m.current_holder),
            None => None,
        }
    }

    /// The balance of `owner`'s account, if the account exists.
    pub fn balance_of(&self, owner: Address) -> (r: Option<u64>)
        requires
            self@.wf(),
        ensures
            match r {
                Some(b) => self@.has_account(owner) && b == self@.account_of(owner).balance,
                None => !self@.has_account(owner),
            },
    {
        match self.find_account(owner) {
            Some(i) => {
                proof {
                    lemma_account_index_unique(self@, owner, i as int);
                }
                Some(self.accounts[i].balance)
            },
            None => None,
        }
    }

    /// Whether `owner`'s account is frozen, if the account exists.
    pub fn frozen_of(&self, owner: Address) -> (r: Option<bool>)
        requires
            self@.wf(),
        ensures
            match r {
                Some(f) => self@.has_account(owner) && f == self@.account_of(owner).frozen,
                None => !self@.has_account(owner),
            },
    {
        match self.find_account(owner) {
            Some(i) => {
                proof {
                    lemma_account_index_unique(self@, owner, i as int);
                }
                Some(self.accounts[i].frozen)
            },
            None => None,
        }
    }

    /// Whether the singleton asset authority has been created.
    pub fn is_initialized(&self) -> (r: bool)
        ensures
            r == (self@.authority is Some),
    {
        self.authority.is_some()
    }

    /// The derived address of the asset authority record, once initialized.
    pub fn authority_key(&self) -> (r: Option<Address>)
        ensures
            match r {
                Some(k) => self@.authority matches Some(a) && a.key == k,
                None => self@.authority is None,
            },
    {
        match self.authority {
            Some(a) => Some(a.key),
            None => None,
        }
    }
}

} // verus!
