//! Addresses as the ledger orders them: accounts before contracts, then by
//! the 32-byte key or hash read as four big-endian words.
use vstd::prelude::*;

verus! {

/// An account or contract address.
#[derive(Clone, Copy, Debug, PartialEq, Eq, Structural)]
pub struct AddressKey {
    pub is_contract: bool,
    pub w0: u64,
    pub w1: u64,
    pub w2: u64,
    pub w3: u64,
}

/// The ledger's order on addresses.
pub open spec fn address_lt(a: AddressKey, b: AddressKey) -> bool {
    if a.is_contract != b.is_contract {
        !a.is_contract
    } else if a.w0 != b.w0 {
        a.w0 < b.w0
    } else if a.w1 != b.w1 {
        a.w1 < b.w1
    } else if a.w2 != b.w2 {
        a.w2 < b.w2
    } else {
        a.w3 < b.w3
    }
}

impl AddressKey {
    /// Whether `self` sorts strictly before `other`.
    pub fn lt(&self, other: &AddressKey) -> (r: bool)
        ensures
            r == address_lt(*self, *other),
    {
        if self.is_contract != other.is_contract {
            !self.is_contract
        } else if self.w0 != other.w0 {
            self.w0 < other.w0
        } else if self.w1 != other.w1 {
            self.w1 < other.w1
        } else if self.w2 != other.w2 {
            self.w2 < other.w2
        } else {
            self.w3 < other.w3
        }
    }

    /// Whether the two addresses are the same.
    pub fn same(&self, other: &AddressKey) -> (r: bool)
        ensures
            r == (*self == *other),
    {
        *self == *other
    }
}

} // verus!
