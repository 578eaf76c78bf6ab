//! Laws of the registry: properties of the transition functions, proved for
//! every state, identity and payload. Each executable operation is proved to
//! follow its transition function, so these laws carry over to the running
//! code.

use vstd::prelude::*;
use crate::errors::CustomError;
use crate::identity::Identity;
use crate::policy::spec_authorize;
use crate::records::TokenInfoView;
use crate::registry::{
    addresses_consistent, RegistryView, spec_initialize, spec_register, spec_update_manager,
    spec_update_token,
};

verus! {

/// Initializing the manager record with requester `requester` succeeds while
/// the record is absent, and reading the authority immediately afterwards
/// returns `requester`. Token records are untouched.
pub proof fn lemma_initialize_sets_authority(s: RegistryView, requester: Identity)
    requires
        s.manager is None,
    ensures
        spec_initialize(s, requester).1 == Ok::<(), CustomError>(()),
        spec_initialize(s, requester).0.manager == Some(requester),
        spec_initialize(s, requester).0.tokens == s.tokens,
{
}

/// Initialization can only ever succeed once: whatever the first call did,
/// a second call fails with `AlreadyExists`, regardless of the requester,
/// and changes nothing.
pub proof fn lemma_initialize_at_most_once(s: RegistryView, first: Identity, second: Identity)
    ensures
        spec_initialize(spec_initialize(s, first).0, second).1 == Err::<(), CustomError>(
            CustomError::AlreadyExists,
        ),
        spec_initialize(spec_initialize(s, first).0, second).0 == spec_initialize(s, first).0,
{
}

/// Rotating the manager authority succeeds iff the requester is the current
/// authority; every other requester is refused with `Unauthorized` and the
/// authority is unchanged. Token records are untouched either way.
pub proof fn lemma_update_manager_authorization(
    s: RegistryView,
    requester: Identity,
    new_manager: Identity,
)
    requires
        s.manager is Some,
    ensures
        spec_update_manager(s, requester, new_manager).1 == Ok::<(), CustomError>(()) <==> s.manager
            == Some(requester),
        s.manager == Some(requester) ==> spec_update_manager(s, requester, new_manager).0.manager
            == Some(new_manager),
        s.manager != Some(requester) ==> spec_update_manager(s, requester, new_manager) == (
            s,
            Err::<(), CustomError>(CustomError::Unauthorized),
        ),
        spec_update_manager(s, requester, new_manager).0.tokens == s.tokens,
{
}

/// Registration succeeds iff the requester is the manager authority or the
/// token's minting authority; any third identity is refused with
/// `InvalidRegisterRights` and no token record is created. On success the
/// new record holds the token identifier and the payload verbatim.
pub proof fn lemma_register_authorization(
    s: RegistryView,
    requester: Identity,
    token_id: Identity,
    minting_authority: Identity,
    name: Seq<char>,
    symbol: Seq<char>,
    image_uri: Seq<char>,
)
    requires
        s.manager is Some,
        !s.tokens.dom().contains(token_id),
    ensures
        spec_register(s, requester, token_id, Some(minting_authority), name, symbol, image_uri).1
            == Ok::<(), CustomError>(()) <==> spec_authorize(
            requester,
            s.manager->0,
            minting_authority,
        ),
        spec_authorize(requester, s.manager->0, minting_authority) ==> spec_register(
            s,
            requester,
            token_id,
            Some(minting_authority),
            name,
            symbol,
            image_uri,
        ).0.tokens == s.tokens.insert(
            token_id,
            TokenInfoView { address: token_id, name, symbol, image_uri },
        ),
        !spec_authorize(requester, s.manager->0, minting_authority) ==> spec_register(
            s,
            requester,
            token_id,
            Some(minting_authority),
            name,
            symbol,
            image_uri,
        ) == (s, Err::<(), CustomError>(CustomError::InvalidRegisterRights)),
{
}

/// A token identifier can be registered at most once: after a successful
/// registration, a second attempt by any authorized requester fails with
/// `AlreadyRegistered`, and the first record's fields are unchanged.
pub proof fn lemma_register_at_most_once(
    s: RegistryView,
    first_requester: Identity,
    first_minting_authority: Option<Identity>,
    second_requester: Identity,
    second_minting_authority: Identity,
    token_id: Identity,
    name: Seq<char>,
    symbol: Seq<char>,
    image_uri: Seq<char>,
    second_name: Seq<char>,
    second_symbol: Seq<char>,
    second_image_uri: Seq<char>,
)
    requires
        spec_register(
            s,
            first_requester,
            token_id,
            first_minting_authority,
            name,
            symbol,
            image_uri,
        ).1 is Ok,
    ensures
        ({
            let s1 = spec_register(
                s,
                first_requester,
                token_id,
                first_minting_authority,
                name,
                symbol,
                image_uri,
            ).0;
            let second = spec_register(
                s1,
                second_requester,
                token_id,
                Some(second_minting_authority),
                second_name,
                second_symbol,
                second_image_uri,
            );
            spec_authorize(second_requester, s1.manager->0, second_minting_authority) ==> second
                == (s1, Err::<(), CustomError>(CustomError::AlreadyRegistered)) && second.0.tokens[
                token_id
            ] == TokenInfoView { address: token_id, name, symbol, image_uri }
        }),
{
}

/// Updating an unregistered token identifier fails with `NotRegistered`,
/// even for an authorized requester, and changes nothing.
pub proof fn lemma_update_token_unregistered(
    s: RegistryView,
    requester: Identity,
    token_id: Identity,
    minting_authority: Identity,
    name: Seq<char>,
    symbol: Seq<char>,
    image_uri: Seq<char>,
)
    requires
        s.manager is Some,
        spec_authorize(requester, s.manager->0, minting_authority),
        !s.tokens.dom().contains(token_id),
    ensures
        spec_update_token(s, requester, token_id, Some(minting_authority), name, symbol, image_uri)
            == (s, Err::<(), CustomError>(CustomError::NotRegistered)),
{
}

/// Updating a token's metadata is idempotent: a second update with the
/// identical payload leaves the registry in exactly the state the first one
/// produced.
pub proof fn lemma_update_token_idempotent(
    s: RegistryView,
    requester: Identity,
    token_id: Identity,
    minting_authority: Option<Identity>,
    name: Seq<char>,
    symbol: Seq<char>,
    image_uri: Seq<char>,
)
    requires
        spec_update_token(s, requester, token_id, minting_authority, name, symbol, image_uri).1
            is Ok,
    ensures
        ({
            let s1 = spec_update_token(
                s,
                requester,
                token_id,
                minting_authority,
                name,
                symbol,
                image_uri,
            ).0;
            spec_update_token(s1, requester, token_id, minting_authority, name, symbol, image_uri)
                == (s1, Ok::<(), CustomError>(()))
        }),
{
    let s1 = spec_update_token(s, requester, token_id, minting_authority, name, symbol, image_uri).0;
    let record = TokenInfoView { address: s.tokens[token_id].address, name, symbol, image_uri };
    assert(s1.tokens == s.tokens.insert(token_id, record));
    assert(s1.tokens[token_id] == record);
    let s2 = spec_update_token(
        s1,
        requester,
        token_id,
        minting_authority,
        name,
        symbol,
        image_uri,
    ).0;
    assert(s2.tokens =~= s1.tokens);
    assert(s2 =~= s1);
}

/// Every transition preserves the token-record invariant: a record's
/// `address` field equals the token identifier it is keyed by. `register`
/// establishes it for the record it creates; no operation ever breaks it.
pub proof fn lemma_transitions_preserve_address_consistency(
    s: RegistryView,
    requester: Identity,
    other: Identity,
    token_id: Identity,
    minting_authority: Option<Identity>,
    name: Seq<char>,
    symbol: Seq<char>,
    image_uri: Seq<char>,
)
    requires
        addresses_consistent(s),
    ensures
        addresses_consistent(spec_initialize(s, requester).0),
        addresses_consistent(spec_update_manager(s, requester, other).0),
        addresses_consistent(
            spec_register(s, requester, token_id, minting_authority, name, symbol, image_uri).0,
        ),
        addresses_consistent(
            spec_update_token(s, requester, token_id, minting_authority, name, symbol, image_uri).0,
        ),
{
}

/// A metadata update never reassigns the record's address, and neither
/// registers nor removes any token identifier.
pub proof fn lemma_update_token_preserves_address(
    s: RegistryView,
    requester: Identity,
    token_id: Identity,
    minting_authority: Option<Identity>,
    name: Seq<char>,
    symbol: Seq<char>,
    image_uri: Seq<char>,
)
    requires
        spec_update_token(s, requester, token_id, minting_authority, name, symbol, image_uri).1
            is Ok,
    ensures
        ({
            let s1 = spec_update_token(
                s,
                requester,
                token_id,
                minting_authority,
                name,
                symbol,
                image_uri,
            ).0;
            s1.tokens[token_id].address == s.tokens[token_id].address && s1.tokens.dom()
                =~= s.tokens.dom()
        }),
{
    let s1 = spec_update_token(s, requester, token_id, minting_authority, name, symbol, image_uri).0;
    assert(s1.tokens.dom() =~= s.tokens.dom());
}

} // verus!
