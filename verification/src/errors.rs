//! The registry's error taxonomy. Every error is terminal for its operation:
//! the state transition functions return the untouched state beside it.

use vstd::prelude::*;

verus! {

/// Why an operation was refused.
///
/// Authorization errors (`Unauthorized`, `InvalidRegisterRights`,
/// `InvalidEditRights`) mean the requester failed an identity check; state
/// errors (`AlreadyExists`, `ManagerNotInitialized`, `AlreadyRegistered`,
/// `NotRegistered`) mean a precondition on record existence was violated;
/// `MintingAuthorityUnknown` means the external minting oracle reported no
/// minting authority for the token.
#[derive(Clone, Copy, Debug, PartialEq, Eq, Structural)]
pub enum CustomError {
    AlreadyExists,
    Unauthorized,
    ManagerNotInitialized,
    MintingAuthorityUnknown,
    InvalidRegisterRights,
    InvalidEditRights,
    AlreadyRegistered,
    NotRegistered,
}

impl CustomError {
    /// A short description of the error, for callers that surface it.
    pub fn message(&self) -> (r: &'static str)
        ensures
            *self is AlreadyExists ==> r@ == "The manager record already exists."@,
            *self is Unauthorized ==> r@ == "You are not the manager authority."@,
            *self is ManagerNotInitialized ==> r@ == "The manager record is not initialized."@,
            *self is MintingAuthorityUnknown ==> r@ == "The token reports no minting authority."@,
            *self is InvalidRegisterRights ==> r@ == "You don't have rights for register."@,
            *self is InvalidEditRights ==> r@ == "You don't have rights for edit."@,
            *self is AlreadyRegistered ==> r@ == "The token is already registered."@,
            *self is NotRegistered ==> r@ == "The token is not registered."@,
    {
        match self {
            CustomError::AlreadyExists => "The manager record already exists.",
            CustomError::Unauthorized => "You are not the manager authority.",
            CustomError::ManagerNotInitialized => "The manager record is not initialized.",
            CustomError::MintingAuthorityUnknown => "The token reports no minting authority.",
            CustomError::InvalidRegisterRights => "You don't have rights for register.",
            CustomError::InvalidEditRights => "You don't have rights for edit.",
            CustomError::AlreadyRegistered => "The token is already registered.",
            CustomError::NotRegistered => "The token is not registered.",
        }
    }
}

} // verus!
