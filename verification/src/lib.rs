//! A verified token-metadata registry with a two-tier authority model.
//!
//! The registry maps a token identifier to descriptive metadata (a name, a
//! symbol and an image reference), held in uniquely-addressed records. A
//! singleton manager record holds the global authority identity; each token
//! record may also be edited by the token's own minting authority. Storage
//! addresses are a pure, injective derivation from a namespace tag and its
//! binding values, so at most one record can ever exist per token identifier:
//! creation at an occupied address fails, which is the only mutual-exclusion
//! primitive the design needs.
//!
//! The surrounding ledger runtime — signature checking, record persistence,
//! the minting oracle — is a collaborator outside this crate. It hands the
//! operations plain values (the authenticated requester identity, the token
//! identifier, the reported minting authority) and applies the resulting
//! state; everything the registry decides is verified here.

pub mod addressing;
pub mod errors;
pub mod identity;
pub mod laws;
pub mod policy;
pub mod records;
pub mod registry;
