//! The authorization policy: the single security-critical predicate of the
//! registry.

use vstd::prelude::*;
use crate::identity::Identity;

verus! {

/// The dual-authority decision: a requester may register or edit a token's
/// metadata iff it is the global manager authority or the token's own
/// minting authority. There is no partial permission and no delegation.
pub open spec fn spec_authorize(
    requester: Identity,
    manager_authority: Identity,
    minting_authority: Identity,
) -> bool {
    requester == manager_authority || requester == minting_authority
}

/// Decides whether `requester` may register or edit the token whose minting
/// authority is `minting_authority`, under the global `manager_authority`.
/// Stateless, so it can be exercised independently of storage.
pub fn authorize(
    requester: &Identity,
    manager_authority: &Identity,
    minting_authority: &Identity,
) -> (r: bool)
    ensures
        r == spec_authorize(*requester, *manager_authority, *minting_authority),
{
    *requester == *manager_authority || *requester == *minting_authority
}

} // verus!
