//! Identities of the parties the ledger deals with.

use vstd::prelude::*;

verus! {

/// What an [`Address`] names.
#[derive(Clone, Copy, Debug, PartialEq, Eq, Hash, Structural)]
pub enum AddressKind {
    /// An account, by the hash of its key.
    Account,
    /// A contract, by the hash of its package.
    Contract,
}

/// The identity of a caller, payer, merchant or collaborator: a kind and a
/// 32-byte hash, held as its upper and lower sixteen bytes.
#[derive(Clone, Copy, Debug, PartialEq, Eq, Hash, Structural)]
pub struct Address {
    pub kind: AddressKind,
    pub hash_hi: u128,
    pub hash_lo: u128,
}

impl Address {
    /// The address of the account with the given hash.
    pub fn account(hash_hi: u128, hash_lo: u128) -> (a: Address)
        ensures
            a == (Address { kind: AddressKind::Account, hash_hi, hash_lo }),
    {
        Address { kind: AddressKind::Account, hash_hi, hash_lo }
    }

    /// The address of the contract with the given package hash.
    pub fn contract(hash_hi: u128, hash_lo: u128) -> (a: Address)
        ensures
            a == (Address { kind: AddressKind::Contract, hash_hi, hash_lo }),
    {
        Address { kind: AddressKind::Contract, hash_hi, hash_lo }
    }

    /// Whether the address names a contract.
    pub fn is_contract(&self) -> (r: bool)
        ensures
            r == (self.kind == AddressKind::Contract),
    {
        self.kind == AddressKind::Contract
    }
}

} // verus!
