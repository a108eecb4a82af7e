//! The options of a fetch.

use crate::parts::option_part::OptionPart;
use vstd::prelude::*;

verus! {

/// An option bag that says where a fetch starts.
pub type FetchOptions = OptionPart;

/// The keys of the options of a fetch.
#[allow(non_camel_case_types)]
#[derive(Clone, Copy, Debug, PartialEq, Eq, Hash, Structural)]
pub enum FetchOptionsId {
    /// Position for the fetch, an `INT`.
    ResultsetPosition,
    /// A key that this driver does not know.
    __Unexpected__,
}

impl FetchOptionsId {
    /// The number of the option on the wire.
    pub fn to_u8(&self) -> (r: u8)
        ensures
            r == (match self {
                FetchOptionsId::ResultsetPosition => 1u8,
                FetchOptionsId::__Unexpected__ => u8::MAX,
            }),
    {
        match self {
            FetchOptionsId::ResultsetPosition => 1,
            FetchOptionsId::__Unexpected__ => u8::MAX,
        }
    }

    /// The option with this number.
    pub fn from_u8(val: u8) -> (r: FetchOptionsId)
        ensures
            r == (if val == 1 {
                FetchOptionsId::ResultsetPosition
            } else {
                FetchOptionsId::__Unexpected__
            }),
    {
        match val {
            1 => FetchOptionsId::ResultsetPosition,
            _ => FetchOptionsId::__Unexpected__,
        }
    }
}

} // verus!
