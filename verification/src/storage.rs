//! The parts of a market that are kept between calls.

use vstd::prelude::*;

verus! {

/// Names the three parts of a market that a host keeps: the books, the
/// index from id to order, and the fee records.
#[derive(Clone, Copy, Debug, PartialEq, Eq, Structural)]
pub enum StorageKey {
    Orders,
    OrderIdToOrder,
    FeesByAccountIds,
}

impl StorageKey {
    /// The byte under which the part is kept: the place of the name among the
    /// three, counted from zero.
    pub fn prefix(&self) -> (byte: u8)
        ensures
            byte == match *self {
                StorageKey::Orders => 0u8,
                StorageKey::OrderIdToOrder => 1u8,
                StorageKey::FeesByAccountIds => 2u8,
            },
    {
        match self {
            StorageKey::Orders => 0,
            StorageKey::OrderIdToOrder => 1,
            StorageKey::FeesByAccountIds => 2,
        }
    }
}

} // verus!
