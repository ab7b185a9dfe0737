use casperflow::error::Error;
use casperflow::identity::{Address, AddressKind};

#[test]
fn addresses_differ_by_kind_and_hash() {
    let a = Address::account(1, 2);
    assert_eq!(a, Address { kind: AddressKind::Account, hash_hi: 1, hash_lo: 2 });
    assert_ne!(a, Address::contract(1, 2));
    assert_ne!(a, Address::account(2, 1));
    assert_ne!(a, Address::account(1, 3));
    assert!(!a.is_contract());
    assert!(Address::contract(1, 2).is_contract());
}

#[test]
fn every_error_says_what_it_is() {
    assert_eq!(Error::InsufficientFunds.message(), "insufficient funds");
    assert_eq!(Error::Unauthorized.message(), "unauthorized");
    assert_eq!(Error::NotFound.message(), "not found");
    assert_eq!(Error::InvalidState.message(), "invalid state");
    assert_eq!(Error::InvalidParameter.message(), "invalid parameter");
}
