//! Orders, and how an order gets its id.

use vstd::prelude::*;
use std::hash::{BuildHasher, BuildHasherDefault};
use std::collections::hash_map::DefaultHasher;
use crate::constants::PRICE_BIAS;
use crate::order_id::OrderId;

verus! {

/// What an order says, as mathematical values.
pub struct OrderData {
    pub maker: Seq<char>,
    pub sell_token: Seq<char>,
    pub sell_amount: u128,
    pub buy_token: Seq<char>,
    pub buy_amount: u128,
}

/// A resting order: `maker` sells `sell_amount` of `sell_token` for
/// `buy_amount` of `buy_token`. An order never changes once made.
#[derive(Debug, PartialEq, Eq)]
pub struct Order {
    pub maker: String,
    pub sell_token: String,
    pub sell_amount: u128,
    pub buy_token: String,
    pub buy_amount: u128,
}

/// The request to place an order: an order without its maker.
#[derive(Debug, PartialEq, Eq)]
pub struct NewOrderAction {
    pub sell_token: String,
    pub sell_amount: u128,
    pub buy_token: String,
    pub buy_amount: u128,
}

/// An order together with its id, as a book shows it.
#[derive(Debug, PartialEq, Eq)]
pub struct OrderView {
    pub order: Order,
    pub order_id: OrderId,
}

/// What an [`OrderView`] says, as mathematical values.
pub struct OrderViewData {
    pub order: OrderData,
    pub order_id: OrderId,
}

impl View for Order {
    type V = OrderData;

    open spec fn view(&self) -> OrderData {
        OrderData {
            maker: self.maker@,
            sell_token: self.sell_token@,
            sell_amount: self.sell_amount,
            buy_token: self.buy_token@,
            buy_amount: self.buy_amount,
        }
    }
}

/// What a [`NewOrderAction`] says, as mathematical values.
pub struct NewOrderData {
    pub sell_token: Seq<char>,
    pub sell_amount: u128,
    pub buy_token: Seq<char>,
    pub buy_amount: u128,
}

impl View for NewOrderAction {
    type V = NewOrderData;

    open spec fn view(&self) -> NewOrderData {
        NewOrderData {
            sell_token: self.sell_token@,
            sell_amount: self.sell_amount,
            buy_token: self.buy_token@,
            buy_amount: self.buy_amount,
        }
    }
}

/// The order that `sender` places with `action`.
pub open spec fn order_from(action: NewOrderData, sender: Seq<char>) -> OrderData {
    OrderData {
        maker: sender,
        sell_token: action.sell_token,
        sell_amount: action.sell_amount,
        buy_token: action.buy_token,
        buy_amount: action.buy_amount,
    }
}

impl View for OrderView {
    type V = OrderViewData;

    open spec fn view(&self) -> OrderViewData {
        OrderViewData { order: self.order@, order_id: self.order_id }
    }
}

/// The amounts an order may have: both positive, and the sell amount small
/// enough for the bias to be added to it.
pub open spec fn amounts_valid(sell_amount: u128, buy_amount: u128) -> bool {
    sell_amount > 0 && buy_amount > 0 && sell_amount + PRICE_BIAS <= u128::MAX
}

/// The price rank: `(sell_amount + PRICE_BIAS) / buy_amount`, rounded down.
pub open spec fn price_rank(sell_amount: u128, buy_amount: u128) -> u128
    recommends
        amounts_valid(sell_amount, buy_amount),
{
    ((sell_amount + PRICE_BIAS) / (buy_amount as int)) as u128
}

/// The digest that std's `DefaultHasher`, freshly made, gives once the five
/// fields of an order have been fed to it in this order. The same five values
/// give the same digest; nothing else is known of it.
pub uninterp spec fn order_digest(
    maker: Seq<char>,
    sell_token: Seq<char>,
    sell_amount: u128,
    buy_token: Seq<char>,
    buy_amount: u128,
) -> u64;

/// The id of an order: its price rank and the digest of its content.
pub open spec fn order_id_of(o: OrderData) -> OrderId {
    OrderId(
        price_rank(o.sell_amount, o.buy_amount),
        order_digest(o.maker, o.sell_token, o.sell_amount, o.buy_token, o.buy_amount),
    )
}

/// Calls `hash_one` of std's `BuildHasher` on the five fields, as a tuple, with
/// a builder that makes each hasher by `DefaultHasher::default()`.
///
/// Believed, not proved: that what comes back is [`order_digest`] of the five
/// values. It rests on std's statement that `DefaultHasher::default()` makes
/// the hasher that `DefaultHasher::new()` makes, which takes no random seed,
/// and on strings and integers feeding a hasher nothing but what they hold.
/// Which digest it is, std leaves open: no contract here says so either.
#[verifier::external_body]
fn content_digest(
    maker: &String,
    sell_token: &String,
    sell_amount: u128,
    buy_token: &String,
    buy_amount: u128,
) -> (digest: u64)
    ensures
        digest == order_digest(maker@, sell_token@, sell_amount, buy_token@, buy_amount),
{
    BuildHasherDefault::<DefaultHasher>::default().hash_one(
        (maker, sell_token, sell_amount, buy_token, buy_amount),
    )
}

/// Whether the amounts are ones an order may have.
pub fn check_amounts(sell_amount: u128, buy_amount: u128) -> (ok: bool)
    ensures
        ok == amounts_valid(sell_amount, buy_amount),
{
    sell_amount > 0 && buy_amount > 0 && sell_amount <= u128::MAX - PRICE_BIAS
}

impl Clone for Order {
    fn clone(&self) -> (copy: Self)
        ensures
            copy@ == self@,
    {
        Order {
            maker: self.maker.clone(),
            sell_token: self.sell_token.clone(),
            sell_amount: self.sell_amount,
            buy_token: self.buy_token.clone(),
            buy_amount: self.buy_amount,
        }
    }
}

impl Clone for NewOrderAction {
    fn clone(&self) -> (copy: Self)
        ensures
            copy@ == self@,
    {
        NewOrderAction {
            sell_token: self.sell_token.clone(),
            sell_amount: self.sell_amount,
            buy_token: self.buy_token.clone(),
            buy_amount: self.buy_amount,
        }
    }
}

impl Clone for OrderView {
    fn clone(&self) -> (copy: Self)
        ensures
            copy@ == self@,
    {
        OrderView { order: self.order.clone(), order_id: self.order_id }
    }
}

impl Order {
    /// Whether the order's amounts are ones an order may have.
    pub open spec fn valid(&self) -> bool {
        amounts_valid(self.sell_amount, self.buy_amount)
    }

    /// Whether `other` says the same as this order.
    pub fn same_as(&self, other: &Order) -> (same: bool)
        ensures
            same == (self@ == other@),
    {
        self.maker == other.maker && self.sell_token == other.sell_token && self.sell_amount
            == other.sell_amount && self.buy_token == other.buy_token && self.buy_amount == other.buy_amount
    }

    /// The price rank of the order.
    pub fn get_price_for_key(&self) -> (rank: u128)
        requires
            self.valid(),
        ensures
            rank == price_rank(self.sell_amount, self.buy_amount),
    {
        (self.sell_amount + PRICE_BIAS) / self.buy_amount
    }

    /// The id under which the order stands in the books, given the digest of
    /// its content.
    pub fn id_with_digest(&self, digest: u64) -> (id: OrderId)
        requires
            self.valid(),
        ensures
            id == OrderId(price_rank(self.sell_amount, self.buy_amount), digest),
    {
        OrderId(self.get_price_for_key(), digest)
    }

    /// The id of the order.
    pub fn get_id(&self) -> (id: OrderId)
        requires
            self.valid(),
        ensures
            id == order_id_of(self@),
    {
        let digest: u64 = content_digest(
            &self.maker,
            &self.sell_token,
            self.sell_amount,
            &self.buy_token,
            self.buy_amount,
        );
        self.id_with_digest(digest)
    }

    /// The order that `sender` places with `action`.
    pub fn from_action(action: NewOrderAction, sender: String) -> (order: Self)
        ensures
            order@ == order_from(action@, sender@),
    {
        Order {
            maker: sender,
            sell_token: action.sell_token,
            sell_amount: action.sell_amount,
            buy_token: action.buy_token,
            buy_amount: action.buy_amount,
        }
    }
}

/// Orders that say the same have the same id.
pub proof fn lemma_same_content_same_id(a: Order, b: Order)
    requires
        a@ == b@,
    ensures
        order_id_of(a@) == order_id_of(b@),
{
}

} // verus!
