//! A limit-order market: resting orders kept in price order, a per-asset fee
//! ledger, and the step-by-step settlement of a fill whose transfers are
//! confirmed only later.
//!
//! The market itself is [`market::Market`]. What it is, as a mathematical
//! value, and what each operation makes of it, is written down in [`state`];
//! the contracts of the operations say no more and no less than that, and
//! [`lemmas`] holds what follows for the operations taken together.
//!
//! The market makes no transfer and reads no clock or caller by itself. An
//! operation that moves assets returns the transfer to make, and where a
//! step must follow, the step to resume with: see [`settlement`] and
//! [`callbacks`]. Who called is handed in as a [`helpers::CallContext`].
//! Between calls the market can be laid open with `to_parts` and taken up
//! again with `from_parts`.

pub mod book;
pub mod callbacks;
pub mod constants;
pub mod errors;
pub mod fees;
pub mod ft_receiver_market;
pub mod helpers;
pub mod keyed;
pub mod lemmas;
pub mod market;
pub mod order;
pub mod order_id;
pub mod settlement;
pub mod state;
pub mod storage;
