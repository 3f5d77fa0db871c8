//! Addresses of the ledger.

use vstd::prelude::*;

verus! {

/// What an address belongs to.
#[derive(Debug, Clone, Copy, PartialEq, Eq, Structural)]
pub enum AddressKind {
    /// An account, known by its public key.
    Account,
    /// A contract, known by its identifier.
    Contract,
}

/// An address of the ledger: its kind and the 32 bytes that tell it from others.
#[derive(Debug, Clone, Copy, PartialEq, Eq, Structural)]
pub struct Address {
    pub kind: AddressKind,
    /// The first 16 bytes, as a big-endian number.
    pub high: u128,
    /// The last 16 bytes, as a big-endian number.
    pub low: u128,
}

} // verus!
