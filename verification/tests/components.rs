use token_register::addressing::{manager_address, token_address, NamespaceTag};
use token_register::errors::CustomError;
use token_register::identity::Identity;
use token_register::policy::authorize;
use token_register::records::Manager;

fn id(n: u8) -> Identity {
    Identity::new([n; 32])
}

#[test]
fn identity_equality_is_by_bytes() {
    let mut raw = [0u8; 32];
    raw[31] = 1;
    assert_eq!(Identity::new(raw), Identity::new(raw));
    assert_ne!(Identity::new(raw), Identity::new([0u8; 32]));
    assert_ne!(id(1), id(2));
}

#[test]
fn authorize_dual_authority() {
    let manager = id(1);
    let minting = id(2);
    assert!(authorize(&id(1), &manager, &minting));
    assert!(authorize(&id(2), &manager, &minting));
    assert!(!authorize(&id(3), &manager, &minting));
    assert!(authorize(&id(4), &id(4), &id(4)));
}

#[test]
fn derive_address_deterministic() {
    let first = token_address(id(9));
    let second = token_address(id(9));
    assert_eq!(first.tag, second.tag);
    assert_eq!(first.bindings, second.bindings);
}

#[test]
fn derived_addresses_distinct() {
    let manager = manager_address();
    let token_a = token_address(id(1));
    let token_b = token_address(id(2));
    assert_eq!(manager.tag, NamespaceTag::Manager);
    assert!(manager.bindings.is_empty());
    assert_eq!(token_a.tag, NamespaceTag::Token);
    assert_eq!(token_a.bindings, vec![id(1)]);
    assert_ne!(token_a.bindings, token_b.bindings);
}

#[test]
fn manager_record_len() {
    assert_eq!(Manager::LEN, 32);
}

#[test]
fn error_messages() {
    assert_eq!(
        CustomError::InvalidRegisterRights.message(),
        "You don't have rights for register."
    );
    assert_eq!(CustomError::InvalidEditRights.message(), "You don't have rights for edit.");
    assert_ne!(CustomError::AlreadyExists.message(), CustomError::NotRegistered.message());
}
