//! The ways an operation of the market can fail.

use vstd::prelude::*;

verus! {

/// Why an operation was refused. Every refusal leaves the market as it was.
#[derive(Clone, Copy, Debug, PartialEq, Eq, Structural)]
pub enum MarketError {
    /// The books are not in the state that a step of a settlement counts on.
    Internal,
    /// The pair's book already holds an order with the same id.
    DuplicateOrder,
    /// No order with the given id is known.
    OrderNotFound,
    /// The caller is neither the order's maker nor the market's owner, as the operation asks.
    PermissionDenied,
    /// The amount sent to fill an order is not the amount the order asks for.
    InvalidAmount,
    /// The asset sent to fill an order is not the asset the order asks for.
    InvalidToken,
    /// The message that came with a transfer could not be read.
    BadMessageFormat,
    /// A step was resumed with no result, or with more than one.
    BadCallbackResultCount,
    /// More fees were asked for than the asset has earned.
    InsufficientFunds,
    /// The transfer to the maker failed: the fill stops, the order stays.
    SettlementAborted,
}

impl MarketError {
    /// The text under which the failure is reported.
    pub fn message(&self) -> (text: &'static str)
        ensures
            text@ == match *self {
                MarketError::Internal => "E01: internal issue"@,
                MarketError::DuplicateOrder => "E02: order already exists"@,
                MarketError::OrderNotFound => "E03: order not found"@,
                MarketError::PermissionDenied => "E04: permission denied"@,
                MarketError::InvalidAmount => "E05: not valid amount"@,
                MarketError::InvalidToken => "E06: not valid token"@,
                MarketError::BadMessageFormat => "E07: wrong msg format"@,
                MarketError::BadCallbackResultCount => "E08: not correct promise result count"@,
                MarketError::InsufficientFunds => "E10: not enough FT"@,
                MarketError::SettlementAborted => "E01: internal issue"@,
            },
    {
        match self {
            MarketError::Internal => "E01: internal issue",
            MarketError::DuplicateOrder => "E02: order already exists",
            MarketError::OrderNotFound => "E03: order not found",
            MarketError::PermissionDenied => "E04: permission denied",
            MarketError::InvalidAmount => "E05: not valid amount",
            MarketError::InvalidToken => "E06: not valid token",
            MarketError::BadMessageFormat => "E07: wrong msg format",
            MarketError::BadCallbackResultCount => "E08: not correct promise result count",
            MarketError::InsufficientFunds => "E10: not enough FT",
            MarketError::SettlementAborted => "E01: internal issue",
        }
    }
}

} // verus!
