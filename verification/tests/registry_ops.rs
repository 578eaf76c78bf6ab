use token_register::errors::CustomError;
use token_register::identity::Identity;
use token_register::registry::Registry;

fn id(n: u8) -> Identity {
    Identity::new([n; 32])
}

fn s(text: &str) -> String {
    text.to_string()
}

#[test]
fn initialize_sets_authority() {
    let mut registry = Registry::new();
    assert_eq!(registry.manager_authority(), None);
    assert_eq!(registry.initialize(id(1)), Ok(()));
    assert_eq!(registry.manager_authority(), Some(id(1)));
}

#[test]
fn initialize_twice_fails() {
    let mut registry = Registry::new();
    assert_eq!(registry.initialize(id(1)), Ok(()));
    assert_eq!(registry.initialize(id(2)), Err(CustomError::AlreadyExists));
    assert_eq!(registry.initialize(id(1)), Err(CustomError::AlreadyExists));
    assert_eq!(registry.manager_authority(), Some(id(1)));
}

#[test]
fn update_manager_by_authority() {
    let mut registry = Registry::new();
    assert_eq!(registry.initialize(id(1)), Ok(()));
    assert_eq!(registry.update_manager(id(1), id(2)), Ok(()));
    assert_eq!(registry.manager_authority(), Some(id(2)));
    assert_eq!(registry.update_manager(id(1), id(3)), Err(CustomError::Unauthorized));
    assert_eq!(registry.manager_authority(), Some(id(2)));
}

#[test]
fn update_manager_by_stranger_fails() {
    let mut registry = Registry::new();
    assert_eq!(registry.initialize(id(1)), Ok(()));
    assert_eq!(registry.update_manager(id(3), id(3)), Err(CustomError::Unauthorized));
    assert_eq!(registry.manager_authority(), Some(id(1)));
}

#[test]
fn update_manager_uninitialized_fails() {
    let mut registry = Registry::new();
    assert_eq!(registry.update_manager(id(1), id(2)), Err(CustomError::ManagerNotInitialized));
    assert_eq!(registry.manager_authority(), None);
}

#[test]
fn register_by_manager_authority() {
    let mut registry = Registry::new();
    assert_eq!(registry.initialize(id(1)), Ok(()));
    assert_eq!(
        registry.register(id(1), id(9), Some(id(5)), s("Coin"), s("CN"), s("uri1")),
        Ok(())
    );
    let record = registry.get_token(&id(9)).expect("record must exist");
    assert_eq!(record.address, id(9));
    assert_eq!(record.name, "Coin");
    assert_eq!(record.symbol, "CN");
    assert_eq!(record.image_uri, "uri1");
}

#[test]
fn register_by_minting_authority() {
    let mut registry = Registry::new();
    assert_eq!(registry.initialize(id(1)), Ok(()));
    assert_eq!(
        registry.register(id(5), id(9), Some(id(5)), s("Coin"), s("CN"), s("uri1")),
        Ok(())
    );
    assert!(registry.get_token(&id(9)).is_some());
}

#[test]
fn register_by_third_identity_fails() {
    let mut registry = Registry::new();
    assert_eq!(registry.initialize(id(1)), Ok(()));
    assert_eq!(
        registry.register(id(7), id(9), Some(id(5)), s("Coin"), s("CN"), s("uri1")),
        Err(CustomError::InvalidRegisterRights)
    );
    assert!(registry.get_token(&id(9)).is_none());
}

#[test]
fn register_unknown_minting_authority_fails() {
    let mut registry = Registry::new();
    assert_eq!(registry.initialize(id(1)), Ok(()));
    assert_eq!(
        registry.register(id(1), id(9), None, s("Coin"), s("CN"), s("uri1")),
        Err(CustomError::MintingAuthorityUnknown)
    );
    assert!(registry.get_token(&id(9)).is_none());
}

#[test]
fn register_without_manager_fails() {
    let mut registry = Registry::new();
    assert_eq!(
        registry.register(id(1), id(9), Some(id(5)), s("Coin"), s("CN"), s("uri1")),
        Err(CustomError::ManagerNotInitialized)
    );
}

#[test]
fn register_twice_fails() {
    let mut registry = Registry::new();
    assert_eq!(registry.initialize(id(1)), Ok(()));
    assert_eq!(
        registry.register(id(1), id(9), Some(id(5)), s("Coin"), s("CN"), s("uri1")),
        Ok(())
    );
    assert_eq!(
        registry.register(id(5), id(9), Some(id(5)), s("Other"), s("OT"), s("uri2")),
        Err(CustomError::AlreadyRegistered)
    );
    let record = registry.get_token(&id(9)).expect("record must exist");
    assert_eq!(record.name, "Coin");
    assert_eq!(record.symbol, "CN");
    assert_eq!(record.image_uri, "uri1");
}

#[test]
fn update_token_unregistered_fails() {
    let mut registry = Registry::new();
    assert_eq!(registry.initialize(id(1)), Ok(()));
    assert_eq!(
        registry.update_token(id(1), id(9), Some(id(5)), s("Coin"), s("CN"), s("uri1")),
        Err(CustomError::NotRegistered)
    );
}

#[test]
fn update_token_without_manager_fails() {
    let mut registry = Registry::new();
    assert_eq!(
        registry.update_token(id(1), id(9), Some(id(5)), s("Coin"), s("CN"), s("uri1")),
        Err(CustomError::ManagerNotInitialized)
    );
}

#[test]
fn update_token_unknown_minting_authority_fails() {
    let mut registry = Registry::new();
    assert_eq!(registry.initialize(id(1)), Ok(()));
    assert_eq!(
        registry.register(id(1), id(9), Some(id(5)), s("Coin"), s("CN"), s("uri1")),
        Ok(())
    );
    assert_eq!(
        registry.update_token(id(1), id(9), None, s("Coin2"), s("CN2"), s("uri2")),
        Err(CustomError::MintingAuthorityUnknown)
    );
}

#[test]
fn update_token_idempotent() {
    let mut registry = Registry::new();
    assert_eq!(registry.initialize(id(1)), Ok(()));
    assert_eq!(
        registry.register(id(1), id(9), Some(id(5)), s("Coin"), s("CN"), s("uri1")),
        Ok(())
    );
    assert_eq!(
        registry.update_token(id(1), id(9), Some(id(5)), s("Coin2"), s("CN2"), s("uri2")),
        Ok(())
    );
    let (name1, symbol1, uri1, addr1) = {
        let record = registry.get_token(&id(9)).expect("record must exist");
        (record.name.clone(), record.symbol.clone(), record.image_uri.clone(), record.address)
    };
    assert_eq!(
        registry.update_token(id(1), id(9), Some(id(5)), s("Coin2"), s("CN2"), s("uri2")),
        Ok(())
    );
    let record = registry.get_token(&id(9)).expect("record must exist");
    assert_eq!(record.name, name1);
    assert_eq!(record.symbol, symbol1);
    assert_eq!(record.image_uri, uri1);
    assert_eq!(record.address, addr1);
    assert_eq!(registry.manager_authority(), Some(id(1)));
}

#[test]
fn end_to_end_scenario() {
    let a = id(1);
    let m = id(2);
    let t = id(9);
    let x = id(7);

    let mut registry = Registry::new();
    assert_eq!(registry.initialize(a), Ok(()));

    assert_eq!(registry.register(m, t, Some(m), s("Coin"), s("CN"), s("uri1")), Ok(()));
    {
        let record = registry.get_token(&t).expect("record must exist");
        assert_eq!(record.address, t);
        assert_eq!(record.name, "Coin");
        assert_eq!(record.symbol, "CN");
        assert_eq!(record.image_uri, "uri1");
    }

    assert_eq!(registry.update_token(a, t, Some(m), s("Coin2"), s("CN2"), s("uri2")), Ok(()));
    {
        let record = registry.get_token(&t).expect("record must exist");
        assert_eq!(record.address, t);
        assert_eq!(record.name, "Coin2");
        assert_eq!(record.symbol, "CN2");
        assert_eq!(record.image_uri, "uri2");
    }

    assert_eq!(
        registry.update_token(x, t, Some(m), s("Coin3"), s("CN3"), s("uri3")),
        Err(CustomError::InvalidEditRights)
    );
    let record = registry.get_token(&t).expect("record must exist");
    assert_eq!(record.address, t);
    assert_eq!(record.name, "Coin2");
    assert_eq!(record.symbol, "CN2");
    assert_eq!(record.image_uri, "uri2");
}
