//! Account addresses as plain 256-bit values, split into two 128-bit
//! halves so that equality and ordering stay structural.

use vstd::prelude::*;

verus! {

/// A 32-byte account address, stored as two little-endian 128-bit
/// halves.
#[derive(Clone, Copy, PartialEq, Eq, Structural, Debug, Hash)]
pub struct Address {
    pub lo: u128,
    pub hi: u128,
}

impl Address {
    /// The all-zero address: the owner of fresh accounts, and the
    /// system program's address in the account model.
    pub fn zeroed() -> (r: Address)
        ensures
            r == (Address { lo: 0u128, hi: 0u128 }),
    {
        Address { lo: 0, hi: 0 }
    }
}

} // verus!
