//! The registry service: the four state transitions over the manager record
//! and the token records.
//!
//! The arena of token records is keyed by the token identifier. That is the
//! same thing as keying it by the derived record address: the address
//! deriver maps identifiers to token-record addresses injectively (see
//! [`crate::addressing::lemma_token_address_injective`]), so at most one
//! record per identifier and at most one record per address coincide.
//!
//! Each transition is specified twice: a pure transition function on
//! [`RegistryView`] says exactly which next state and which result every
//! input produces, and the executable operation is proved to follow it. The
//! collaborator runtime authenticates the requester identity and reports the
//! token's minting authority; both reach the operations as plain values.

use vstd::prelude::*;
use crate::errors::CustomError;
use crate::identity::Identity;
use crate::policy::{authorize, spec_authorize};
use crate::records::{Manager, TokenInfo, TokenInfoView};

verus! {

/// The mathematical state of the registry: the manager record's authority,
/// if the record exists, and the token records keyed by the token identifier
/// their address was derived from.
#[verifier::ext_equal]
pub struct RegistryView {
    pub manager: Option<Identity>,
    pub tokens: Map<Identity, TokenInfoView>,
}

/// What initialization does: create the manager record with the requester as
/// its authority, or fail if the record already exists. The only permission
/// check is existence — initialization is permissionless because it can only
/// ever succeed once, making the first caller the bootstrap authority.
pub open spec fn spec_initialize(s: RegistryView, requester: Identity) -> (
    RegistryView,
    Result<(), CustomError>,
) {
    if s.manager is Some {
        (s, Err(CustomError::AlreadyExists))
    } else {
        (RegistryView { manager: Some(requester), ..s }, Ok(()))
    }
}

/// What authority rotation does: replace the manager record's authority,
/// provided the record exists and the requester is the current authority.
pub open spec fn spec_update_manager(
    s: RegistryView,
    requester: Identity,
    new_manager: Identity,
) -> (RegistryView, Result<(), CustomError>) {
    if s.manager is None {
        (s, Err(CustomError::ManagerNotInitialized))
    } else if s.manager != Some(requester) {
        (s, Err(CustomError::Unauthorized))
    } else {
        (RegistryView { manager: Some(new_manager), ..s }, Ok(()))
    }
}

/// What registration does: create the token record for `token_id`, populated
/// verbatim from the payload, provided the manager record exists, the
/// minting oracle reported an authority, the requester passes the
/// dual-authority policy, and no record exists for `token_id` yet.
pub open spec fn spec_register(
    s: RegistryView,
    requester: Identity,
    token_id: Identity,
    minting_authority: Option<Identity>,
    name: Seq<char>,
    symbol: Seq<char>,
    image_uri: Seq<char>,
) -> (RegistryView, Result<(), CustomError>) {
    if s.manager is None {
        (s, Err(CustomError::ManagerNotInitialized))
    } else if minting_authority is None {
        (s, Err(CustomError::MintingAuthorityUnknown))
    } else if !spec_authorize(requester, s.manager->0, minting_authority->0) {
        (s, Err(CustomError::InvalidRegisterRights))
    } else if s.tokens.dom().contains(token_id) {
        (s, Err(CustomError::AlreadyRegistered))
    } else {
        (
            RegistryView {
                tokens: s.tokens.insert(
                    token_id,
                    TokenInfoView { address: token_id, name, symbol, image_uri },
                ),
                ..s
            },
            Ok(()),
        )
    }
}

/// What a metadata update does: overwrite the three descriptive strings of
/// the existing record for `token_id`, leaving its `address` untouched. The
/// authorization steps are those of registration, with `InvalidEditRights`
/// as the denial.
pub open spec fn spec_update_token(
    s: RegistryView,
    requester: Identity,
    token_id: Identity,
    minting_authority: Option<Identity>,
    name: Seq<char>,
    symbol: Seq<char>,
    image_uri: Seq<char>,
) -> (RegistryView, Result<(), CustomError>) {
    if s.manager is None {
        (s, Err(CustomError::ManagerNotInitialized))
    } else if minting_authority is None {
        (s, Err(CustomError::MintingAuthorityUnknown))
    } else if !spec_authorize(requester, s.manager->0, minting_authority->0) {
        (s, Err(CustomError::InvalidEditRights))
    } else if !s.tokens.dom().contains(token_id) {
        (s, Err(CustomError::NotRegistered))
    } else {
        (
            RegistryView {
                tokens: s.tokens.insert(
                    token_id,
                    TokenInfoView { address: s.tokens[token_id].address, name, symbol, image_uri },
                ),
                ..s
            },
            Ok(()),
        )
    }
}

/// Whether some stored record has address `id`.
pub open spec fn seq_has_address(s: Seq<TokenInfo>, id: Identity) -> bool {
    exists|i: int| 0 <= i < s.len() && s[i].address == id
}

/// The index of the stored record with address `id`, where one exists.
pub open spec fn seq_index_of(s: Seq<TokenInfo>, id: Identity) -> int {
    choose|i: int| 0 <= i < s.len() && s[i].address == id
}

/// No two stored records share an address: the storage layer's
/// create-if-absent contract, carried as the arena's invariant.
pub open spec fn unique_addresses(s: Seq<TokenInfo>) -> bool {
    forall|i: int, j: int|
        0 <= i < j < s.len() ==> s[i].address != s[j].address
}

/// The arena of stored records as a map from token identifier to record
/// value.
pub open spec fn spec_tokens_map(s: Seq<TokenInfo>) -> Map<Identity, TokenInfoView> {
    Map::new(|id: Identity| seq_has_address(s, id), |id: Identity| s[seq_index_of(s, id)]@)
}

/// The token-record invariant: each record's `address` field equals the
/// token identifier the record is keyed by, so a record can never be
/// reassigned to another token.
pub open spec fn addresses_consistent(s: RegistryView) -> bool {
    forall|id: Identity| #[trigger] s.tokens.dom().contains(id) ==> s.tokens[id].address == id
}

/// The registry: the singleton manager record and the arena of token
/// records. Exclusive owner of both record kinds; every mutation goes
/// through the four operations.
pub struct Registry {
    manager: Option<Manager>,
    tokens: Vec<TokenInfo>,
}

impl View for Registry {
    type V = RegistryView;

    closed spec fn view(&self) -> RegistryView {
        RegistryView {
            manager: match self.manager {
                Some(m) => Some(m.authority),
                None => None,
            },
            tokens: spec_tokens_map(self.tokens@),
        }
    }
}

proof fn lemma_index_unique(s: Seq<TokenInfo>, id: Identity)
    requires
        unique_addresses(s),
        seq_has_address(s, id),
    ensures
        0 <= seq_index_of(s, id) < s.len(),
        s[seq_index_of(s, id)].address == id,
        forall|i: int| 0 <= i < s.len() && s[i].address == id ==> i == seq_index_of(s, id),
{
    let i0 = seq_index_of(s, id);
    assert(0 <= i0 < s.len() && s[i0].address == id);
    assert forall|i: int| 0 <= i < s.len() && s[i].address == id implies i == i0 by {
        if i < i0 {
            assert(s[i].address != s[i0].address);
        } else if i0 < i {
            assert(s[i0].address != s[i].address);
        }
    }
}

proof fn lemma_tokens_map_push(s: Seq<TokenInfo>, t: TokenInfo)
    requires
        unique_addresses(s),
        !seq_has_address(s, t.address),
    ensures
        unique_addresses(s.push(t)),
        spec_tokens_map(s.push(t)) == spec_tokens_map(s).insert(t.address, t@),
{
    let s2 = s.push(t);
    assert forall|i: int, j: int| 0 <= i < j < s2.len() implies s2[i].address != s2[j].address by {
        if j < s.len() {
            assert(s[i].address != s[j].address);
        } else {
            assert(s2[j] == t);
            assert(s2[i] == s[i]);
            assert(s[i].address != t.address) by {
                if s[i].address == t.address {
                    assert(seq_has_address(s, t.address));
                }
            }
        }
    }
    let m1 = spec_tokens_map(s2);
    let m2 = spec_tokens_map(s).insert(t.address, t@);
    assert forall|id: Identity| m1.dom().contains(id) <==> m2.dom().contains(id) by {
        if seq_has_address(s2, id) {
            let i = seq_index_of(s2, id);
            lemma_index_unique(s2, id);
            if i < s.len() {
                assert(s[i].address == id);
                assert(seq_has_address(s, id));
            } else {
                assert(s2[i] == t);
            }
        }
        if seq_has_address(s, id) {
            let i = seq_index_of(s, id);
            lemma_index_unique(s, id);
            assert(s2[i].address == id);
            assert(seq_has_address(s2, id));
        }
        if id == t.address {
            assert(s2[s.len() as int] == t);
            assert(seq_has_address(s2, id));
        }
    }
    assert forall|id: Identity| m1.dom().contains(id) implies m1[id] == m2[id] by {
        lemma_index_unique(s2, id);
        let i = seq_index_of(s2, id);
        if id == t.address {
            assert(s2[s.len() as int] == t);
            assert(i == s.len());
            assert(m1[id] == t@);
        } else {
            assert(s2[i].address == id);
            assert(i < s.len());
            assert(seq_has_address(s, id));
            lemma_index_unique(s, id);
            assert(seq_index_of(s, id) == i);
            assert(m2[id] == s[i]@);
        }
    }
    assert(m1 =~= m2);
}

proof fn lemma_tokens_map_update(s: Seq<TokenInfo>, i: int, t: TokenInfo)
    requires
        unique_addresses(s),
        0 <= i < s.len(),
        t.address == s[i].address,
    ensures
        unique_addresses(s.update(i, t)),
        spec_tokens_map(s.update(i, t)) == spec_tokens_map(s).insert(t.address, t@),
{
    let s2 = s.update(i, t);
    assert forall|p: int, q: int| 0 <= p < q < s2.len() implies s2[p].address != s2[q].address by {
        assert(s[p].address != s[q].address);
        assert(s2[p].address == if p == i { t.address } else { s[p].address });
        assert(s2[q].address == if q == i { t.address } else { s[q].address });
    }
    let m1 = spec_tokens_map(s2);
    let m2 = spec_tokens_map(s).insert(t.address, t@);
    assert forall|id: Identity| m1.dom().contains(id) <==> m2.dom().contains(id) by {
        if seq_has_address(s2, id) {
            let p = seq_index_of(s2, id);
            lemma_index_unique(s2, id);
            if p == i {
                assert(id == t.address);
            } else {
                assert(s[p].address == id);
                assert(seq_has_address(s, id));
            }
        }
        if seq_has_address(s, id) {
            let p = seq_index_of(s, id);
            lemma_index_unique(s, id);
            if p == i {
                assert(id == t.address);
                assert(s2[i].address == id);
                assert(seq_has_address(s2, id));
            } else {
                assert(s2[p].address == id);
                assert(seq_has_address(s2, id));
            }
        }
        if id == t.address {
            assert(s2[i].address == id);
            assert(seq_has_address(s2, id));
        }
    }
    assert forall|id: Identity| m1.dom().contains(id) implies m1[id] == m2[id] by {
        lemma_index_unique(s2, id);
        let p = seq_index_of(s2, id);
        if id == t.address {
            assert(s2[i].address == id);
            assert(p == i);
            assert(m1[id] == t@);
        } else {
            assert(p != i);
            assert(s2[p].address == id);
            assert(s[p].address == id);
            assert(seq_has_address(s, id));
            lemma_index_unique(s, id);
            assert(seq_index_of(s, id) == p);
            assert(m2[id] == s[p]@);
        }
    }
    assert(m1 =~= m2);
}

/// Every well-formed registry satisfies the token-record invariant: the
/// stored record for a token identifier holds that identifier as its
/// address.
pub proof fn lemma_addresses_consistent(r: &Registry)
    requires
        r.wf(),
    ensures
        addresses_consistent(r@),
{
    assert forall|id: Identity| #[trigger] r@.tokens.dom().contains(id) implies r@.tokens[
        id
    ].address == id by {
        lemma_index_unique(r.tokens@, id);
    }
}

impl Registry {
    /// The arena invariant: stored token records have pairwise distinct
    /// addresses. Established by `new` and preserved by every operation.
    pub closed spec fn wf(&self) -> bool {
        unique_addresses(self.tokens@)
    }

    /// An empty registry: no manager record, no token records.
    pub fn new() -> (r: Registry)
        ensures
            r.wf(),
            r@.manager is None,
            r@.tokens == Map::<Identity, TokenInfoView>::empty(),
    {
        let r = Registry { manager: None, tokens: Vec::new() };
        proof {
            assert(r@.tokens =~= Map::<Identity, TokenInfoView>::empty());
        }
        r
    }

    /// The manager record's authority, or `None` while the record does not
    /// exist.
    pub fn manager_authority(&self) -> (r: Option<Identity>)
        ensures
            r == self@.manager,
    {
        match &self.manager {
            Some(m) => Some(m.authority),
            None => None,
        }
    }

    fn find_token_index(&self, token_id: &Identity) -> (r: Option<usize>)
        requires
            self.wf(),
        ensures
            match r {
                Some(i) => i < self.tokens@.len() && self.tokens@[i as int].address == *token_id,
                None => !seq_has_address(self.tokens@, *token_id),
            },
    {
        let mut i: usize = 0;
        while i < self.tokens.len()
            invariant
                i <= self.tokens@.len(),
                forall|j: int| 0 <= j < i ==> self.tokens@[j].address != *token_id,
            decreases self.tokens@.len() - i,
        {
            if self.tokens[i].address == *token_id {
                return Some(i);
            }
            i += 1;
        }
        None
    }

    /// The stored record for `token_id`, or `None` while no record exists.
    pub fn get_token(&self, token_id: &Identity) -> (r: Option<&TokenInfo>)
        requires
            self.wf(),
        ensures
            match r {
                Some(t) => self@.tokens.dom().contains(*token_id) && t@ == self@.tokens[*token_id],
                None => !self@.tokens.dom().contains(*token_id),
            },
    {
        match self.find_token_index(token_id) {
            Some(i) => {
                proof {
                    lemma_index_unique(self.tokens@, *token_id);
                }
                Some(&self.tokens[i])
            },
            None => None,
        }
    }

    /// Creates the manager record with `requester` as its authority; fails
    /// with `AlreadyExists` if the record exists, whoever asks.
    pub fn initialize(&mut self, requester: Identity) -> (r: Result<(), CustomError>)
        requires
            old(self).wf(),
        ensures
            final(self).wf(),
            final(self)@ == spec_initialize(old(self)@, requester).0,
            r == spec_initialize(old(self)@, requester).1,
    {
        if self.manager.is_some() {
            return Err(CustomError::AlreadyExists);
        }
        self.manager = Some(Manager { authority: requester });
        proof {
            assert(final(self)@ =~= spec_initialize(old(self)@, requester).0);
        }
        Ok(())
    }

    /// Rotates the manager record's authority to `new_manager`; only the
    /// current authority may do so.
    pub fn update_manager(&mut self, requester: Identity, new_manager: Identity) -> (r: Result<
        (),
        CustomError,
    >)
        requires
            old(self).wf(),
        ensures
            final(self).wf(),
            final(self)@ == spec_update_manager(old(self)@, requester, new_manager).0,
            r == spec_update_manager(old(self)@, requester, new_manager).1,
    {
        let current = match &self.manager {
            None => {
                return Err(CustomError::ManagerNotInitialized);
            },
            Some(m) => m.authority,
        };
        if !(current == requester) {
            return Err(CustomError::Unauthorized);
        }
        self.manager = Some(Manager { authority: new_manager });
        proof {
            assert(final(self)@ =~= spec_update_manager(old(self)@, requester, new_manager).0);
        }
        Ok(())
    }

    /// Registers `token_id`: creates its record, populated verbatim from the
    /// payload. Requires the manager record to exist, the minting oracle's
    /// report (`minting_authority`, as the collaborator runtime read it in
    /// this operation's snapshot), the dual-authority policy to approve the
    /// requester, and the record to be absent.
    pub fn register(
        &mut self,
        requester: Identity,
        token_id: Identity,
        minting_authority: Option<Identity>,
        name: String,
        symbol: String,
        image_uri: String,
    ) -> (r: Result<(), CustomError>)
        requires
            old(self).wf(),
        ensures
            final(self).wf(),
            final(self)@ == spec_register(
                old(self)@,
                requester,
                token_id,
                minting_authority,
                name@,
                symbol@,
                image_uri@,
            ).0,
            r == spec_register(
                old(self)@,
                requester,
                token_id,
                minting_authority,
                name@,
                symbol@,
                image_uri@,
            ).1,
    {
        let manager_authority = match &self.manager {
            None => {
                return Err(CustomError::ManagerNotInitialized);
            },
            Some(m) => m.authority,
        };
        let minting = match minting_authority {
            None => {
                return Err(CustomError::MintingAuthorityUnknown);
            },
            Some(a) => a,
        };
        if !authorize(&requester, &manager_authority, &minting) {
            return Err(CustomError::InvalidRegisterRights);
        }
        match self.find_token_index(&token_id) {
            Some(_) => Err(CustomError::AlreadyRegistered),
            None => {
                let record = TokenInfo { address: token_id, name, symbol, image_uri };
                proof {
                    lemma_tokens_map_push(self.tokens@, record);
                }
                self.tokens.push(record);
                proof {
                    assert(final(self)@ =~= spec_register(
                        old(self)@,
                        requester,
                        token_id,
                        minting_authority,
                        name@,
                        symbol@,
                        image_uri@,
                    ).0);
                }
                Ok(())
            },
        }
    }

    /// Overwrites the three metadata strings of the existing record for
    /// `token_id`; its `address` is never touched. Authorization is that of
    /// `register`, with `InvalidEditRights` as the denial.
    pub fn update_token(
        &mut self,
        requester: Identity,
        token_id: Identity,
        minting_authority: Option<Identity>,
        name: String,
        symbol: String,
        image_uri: String,
    ) -> (r: Result<(), CustomError>)
        requires
            old(self).wf(),
        ensures
            final(self).wf(),
            final(self)@ == spec_update_token(
                old(self)@,
                requester,
                token_id,
                minting_authority,
                name@,
                symbol@,
                image_uri@,
            ).0,
            r == spec_update_token(
                old(self)@,
                requester,
                token_id,
                minting_authority,
                name@,
                symbol@,
                image_uri@,
            ).1,
    {
        let manager_authority = match &self.manager {
            None => {
                return Err(CustomError::ManagerNotInitialized);
            },
            Some(m) => m.authority,
        };
        let minting = match minting_authority {
            None => {
                return Err(CustomError::MintingAuthorityUnknown);
            },
            Some(a) => a,
        };
        if !authorize(&requester, &manager_authority, &minting) {
            return Err(CustomError::InvalidEditRights);
        }
        match self.find_token_index(&token_id) {
            None => Err(CustomError::NotRegistered),
            Some(i) => {
                proof {
                    lemma_index_unique(self.tokens@, token_id);
                }
                let address = self.tokens[i].address;
                let record = TokenInfo { address, name, symbol, image_uri };
                proof {
                    lemma_tokens_map_update(self.tokens@, i as int, record);
                }
                self.tokens[i] = record;
                proof {
                    assert(final(self)@ =~= spec_update_token(
                        old(self)@,
                        requester,
                        token_id,
                        minting_authority,
                        name@,
                        symbol@,
                        image_uri@,
                    ).0);
                }
                Ok(())
            },
        }
    }
}

} // verus!
