//! Fixed quantities of the market.

use vstd::prelude::*;

verus! {

/// Deposit attached to every outgoing asset transfer.
pub const ONE_YOCTO: u128 = 1;

/// The fee rate that stands for the whole amount: rates count in 1/100 of a percent.
pub const HUNDRED_PERCENT: u16 = 10000;

/// The fee rate an asset has until an administrator sets another one (1%).
pub const DEFAULT_FEE_PERCENT: u16 = 100;

/// Gas reserved for one outgoing asset transfer.
pub const FT_TRANSFER_TGAS: u64 = 50_000_000_000_000;

/// Gas kept back for the step that runs when a transfer has resolved.
pub const RESERVE_TGAS: u64 = 15_000_000_000_000;

/// Bias added to the sell amount before it is divided by the buy amount, so
/// that the ranks of orders with everyday amounts are large and tell prices apart.
pub const PRICE_BIAS: u128 = 1_000_000_000_000_000_000_000_000_000_000;

/// How many orders a view of one pair's book shows.
pub const BOOK_VIEW_LIMIT: usize = 5;

} // verus!
