//! An optional amount in the shape the contract interface carries it.
use vstd::prelude::*;

verus! {

/// An optional `u128`.
#[derive(Clone, Copy, Debug, PartialEq, Eq, Structural)]
pub enum OptionUint {
    Value(u128),
    Nothing,
}

impl OptionUint {
    /// The same optional amount as an `Option`.
    pub fn to_option(&self) -> (r: Option<u128>)
        ensures
            r == match *self {
                OptionUint::Value(v) => Some(v),
                OptionUint::Nothing => None::<u128>,
            },
    {
        match self {
            OptionUint::Value(v) => Some(*v),
            OptionUint::Nothing => None,
        }
    }

    /// The optional amount of an `Option`.
    pub fn from_option(o: Option<u128>) -> (r: OptionUint)
        ensures
            r == match o {
                Some(v) => OptionUint::Value(v),
                None => OptionUint::Nothing,
            },
    {
        match o {
            Some(v) => OptionUint::Value(v),
            None => OptionUint::Nothing,
        }
    }
}

} // verus!
