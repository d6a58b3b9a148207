use vstd::prelude::*;

verus! {

/// What kind of ledger object an [`Address`] names.
#[derive(Clone, Copy, Debug, PartialEq, Eq, Structural, Hash)]
pub enum AddressKind {
    /// A Stellar account (`G...` strkey), identified by its ed25519 key.
    Account,
    /// A deployed contract (`C...` strkey), identified by its contract hash.
    Contract,
}

/// A Stellar address: the kind of object and its 32-byte payload, held as
/// two big-endian 128-bit halves.
///
/// Two addresses are equal exactly when kind and payload are equal, which is
/// what `==` computes here.
#[derive(Clone, Copy, Debug, PartialEq, Eq, Structural, Hash)]
pub struct Address {
    pub kind: AddressKind,
    pub hi: u128,
    pub lo: u128,
}

impl Address {
    /// The address of the account whose key has the given halves.
    pub fn account(hi: u128, lo: u128) -> (a: Address)
        ensures
            a == (Address { kind: AddressKind::Account, hi, lo }),
    {
        Address { kind: AddressKind::Account, hi, lo }
    }

    /// The address of the contract whose hash has the given halves.
    pub fn contract(hi: u128, lo: u128) -> (a: Address)
        ensures
            a == (Address { kind: AddressKind::Contract, hi, lo }),
    {
        Address { kind: AddressKind::Contract, hi, lo }
    }
}

} // verus!
