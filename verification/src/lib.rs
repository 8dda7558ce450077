//! A token-gated membership registry.
//!
//! A single membership credential is held by whoever owns a non-frozen
//! balance of a designated governance asset. Membership is transferred by a
//! claim, which mints the proof-of-membership balance to the claimant,
//! repoints the membership record, and freezes the previous holder's asset
//! account. A frozen former holder recovers transferability of their account
//! by burning the outstanding balance and thawing the account.

pub mod address;
pub mod derivation;
pub mod errors;
pub mod laws;
pub mod registry;

pub use address::Address;
pub use derivation::derive_authority_address;
pub use errors::RegistryError;
pub use registry::{
    AssetAccount, ClaimAuthorization, Membership, MintAuthority, Registry, MEMBERSHIP_UNITS,
};
