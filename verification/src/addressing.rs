//! The address deriver: a deterministic, collision-free map from a namespace
//! tag and its binding values to a storage address.
//!
//! In the deployed system the collaborator runtime derives addresses with a
//! cryptographic function assumed collision-resistant. The registry never
//! relies on more than determinism and injectivity, so the address is
//! modeled as the pair itself, which has both properties outright: record
//! identity is a pure function of what the record is bound to, and distinct
//! bindings can never share an address.

use vstd::prelude::*;
use crate::identity::Identity;

verus! {

/// The namespace a record lives in: one tag for the singleton manager
/// record, one for token records.
#[derive(Clone, Copy, Debug, PartialEq, Eq, Structural)]
pub enum NamespaceTag {
    Manager,
    Token,
}

/// A derived storage address: the namespace tag together with the binding
/// values the derivation was given.
#[derive(Debug)]
pub struct RecordAddress {
    pub tag: NamespaceTag,
    pub bindings: Vec<Identity>,
}

/// The mathematical value of a storage address.
#[verifier::ext_equal]
pub struct RecordAddressView {
    pub tag: NamespaceTag,
    pub bindings: Seq<Identity>,
}

impl View for RecordAddress {
    type V = RecordAddressView;

    open spec fn view(&self) -> RecordAddressView {
        RecordAddressView { tag: self.tag, bindings: self.bindings@ }
    }
}

/// What `derive_address` returns: the address bound to exactly its inputs.
pub open spec fn spec_derive(tag: NamespaceTag, bindings: Seq<Identity>) -> RecordAddressView {
    RecordAddressView { tag, bindings }
}

/// The address of the manager record: the manager namespace tag alone,
/// with no binding values.
pub open spec fn spec_manager_address() -> RecordAddressView {
    spec_derive(NamespaceTag::Manager, Seq::empty())
}

/// The address of the token record bound to `token_id`.
pub open spec fn spec_token_address(token_id: Identity) -> RecordAddressView {
    spec_derive(NamespaceTag::Token, seq![token_id])
}

/// Derives the storage address for `bindings` under `tag`. Pure and
/// deterministic: the result is a function of the arguments alone.
pub fn derive_address(tag: NamespaceTag, bindings: Vec<Identity>) -> (r: RecordAddress)
    ensures
        r@ == spec_derive(tag, bindings@),
{
    RecordAddress { tag, bindings }
}

/// The derived address of the manager record.
pub fn manager_address() -> (r: RecordAddress)
    ensures
        r@ == spec_manager_address(),
{
    let bindings: Vec<Identity> = Vec::new();
    proof {
        assert(bindings@ =~= Seq::<Identity>::empty());
    }
    derive_address(NamespaceTag::Manager, bindings)
}

/// The derived address of the token record for `token_id`.
pub fn token_address(token_id: Identity) -> (r: RecordAddress)
    ensures
        r@ == spec_token_address(token_id),
{
    let mut bindings: Vec<Identity> = Vec::new();
    bindings.push(token_id);
    proof {
        assert(bindings@ =~= seq![token_id]);
    }
    derive_address(NamespaceTag::Token, bindings)
}

/// Collision resistance of the deriver: two derivations agree only when
/// both the namespace tag and every binding value agree.
pub proof fn lemma_derive_injective(
    t1: NamespaceTag,
    b1: Seq<Identity>,
    t2: NamespaceTag,
    b2: Seq<Identity>,
)
    ensures
        spec_derive(t1, b1) == spec_derive(t2, b2) ==> t1 == t2 && b1 == b2,
{
}

/// Token records for distinct token identifiers live at distinct addresses:
/// this is what makes at most one record per identifier possible at all.
pub proof fn lemma_token_address_injective(a: Identity, b: Identity)
    ensures
        spec_token_address(a) == spec_token_address(b) ==> a == b,
{
    if spec_token_address(a) == spec_token_address(b) {
        assert(seq![a][0] == seq![b][0]);
    }
}

/// The manager record's address collides with no token record's address.
pub proof fn lemma_namespaces_disjoint(token_id: Identity)
    ensures
        spec_manager_address() != spec_token_address(token_id),
{
}

} // verus!
