//! The two record kinds held in storage: the singleton manager record and
//! one token record per registered token identifier.

use vstd::prelude::*;
use crate::identity::Identity;

verus! {

/// The singleton manager record. Its only field is the current global
/// authority identity, set at initialization and rotated by the manager
/// update operation; the record itself is never deleted.
#[derive(Clone, Copy, Debug)]
pub struct Manager {
    pub authority: Identity,
}

impl Manager {
    /// Serialized size of the record body: one 32-byte identity key.
    pub const LEN: usize = 32;
}

/// One record per registered token identifier.
///
/// `address` is the token identifier the record was created for; it is set
/// once at registration and never reassigned. The three strings are free-form
/// descriptive metadata, stored verbatim.
#[derive(Debug)]
pub struct TokenInfo {
    pub address: Identity,
    pub name: String,
    pub symbol: String,
    pub image_uri: String,
}

/// The mathematical value of a token record.
#[verifier::ext_equal]
pub struct TokenInfoView {
    pub address: Identity,
    pub name: Seq<char>,
    pub symbol: Seq<char>,
    pub image_uri: Seq<char>,
}

impl View for TokenInfo {
    type V = TokenInfoView;

    open spec fn view(&self) -> TokenInfoView {
        TokenInfoView {
            address: self.address,
            name: self.name@,
            symbol: self.symbol@,
            image_uri: self.image_uri@,
        }
    }
}

} // verus!
