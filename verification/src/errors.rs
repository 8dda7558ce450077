//! Error taxonomy of the registry.
//!
//! Every operation is atomic: on any of these errors the whole operation
//! aborts and no state change is observable.

use vstd::prelude::*;

verus! {

/// Why a registry operation was rejected.
#[derive(Clone, Copy, Debug, PartialEq, Eq, Structural)]
pub enum RegistryError {
    /// The singleton asset authority already exists.
    AlreadyInitialized,
    /// A membership record already exists for this registry.
    DuplicateMembership,
    /// A caller-supplied account address does not match the canonical derived
    /// address, the named account does not exist, or the membership record
    /// observed by the caller is stale.
    AccountMismatch,
    /// The asset's configured supply controller is not the derived asset
    /// authority, so the registration mint capability check fails.
    MintAuthorityMismatch,
    /// A capability check on a mint, freeze, or thaw fails: the asset
    /// authority is missing or does not control the asset.
    AuthorityMismatch,
    /// The account is already frozen.
    AlreadyFrozen,
    /// The account is not frozen, so there is nothing to thaw.
    AccountNotFrozen,
    /// The account holds less than the fixed burn amount.
    InsufficientBalance,
}

} // verus!
