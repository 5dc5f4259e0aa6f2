//! The market as a mathematical value, and what each operation makes of it.

use vstd::prelude::*;
use crate::book::{ascending, holds, lemma_put, lemma_removed, lookup, put, removed};
use crate::errors::MarketError;
use crate::fees::Fee;
use crate::order::{order_from, order_id_of, OrderData, OrderViewData};
use crate::order_id::OrderId;
use crate::settlement::{
    maker_leg, payout, taker_leg, transfer_of, MessageData, ReceiptData, StepData, TransferData, TransferOutcome,
};

verus! {

/// The state of a market: one book per pair that has orders, the index from
/// id to order, and the fee record of each asset that has one.
pub struct MarketState {
    pub version: u8,
    pub books: Map<Seq<char>, Seq<OrderViewData>>,
    pub index: Seq<OrderViewData>,
    pub fees: Map<Seq<char>, Fee>,
}

/// The key of a pair: the asset sold, `#`, the asset bought.
pub open spec fn pair_key(sell_token: Seq<char>, buy_token: Seq<char>) -> Seq<char> {
    sell_token + seq!['#'] + buy_token
}

/// The pair that an order belongs to.
pub open spec fn pair_of(order: OrderData) -> Seq<char> {
    pair_key(order.sell_token, order.buy_token)
}

impl MarketState {
    /// Every order in a book is of the book's pair, and every order in the
    /// index rests in the book of its pair, under the same id.
    pub open spec fn linked(self) -> bool {
        &&& forall|key: Seq<char>, id: OrderId|
            #![trigger lookup(self.books[key], id)]
            self.books.contains_key(key) && lookup(self.books[key], id) is Some ==> pair_of(
                lookup(self.books[key], id)->Some_0,
            ) == key
        &&& forall|id: OrderId|
            #![trigger lookup(self.index, id)]
            lookup(self.index, id) is Some ==> lookup(
                self.book(pair_of(lookup(self.index, id)->Some_0)),
                id,
            ) == lookup(self.index, id)
    }

    /// Every book is ascending and not empty, the index is ascending, the
    /// books and the index are linked, every fee rate is between 1 and 10000.
    pub open spec fn wf(self) -> bool {
        &&& forall|key: Seq<char>| #[trigger]
            self.books.contains_key(key) ==> ascending(self.books[key]) && self.books[key].len() > 0
        &&& ascending(self.index)
        &&& self.linked()
        &&& forall|token: Seq<char>| #[trigger] self.fees.contains_key(token) ==> self.fees[token].valid()
    }

    /// A market without orders and fee records.
    pub open spec fn empty(version: u8) -> MarketState {
        MarketState { version, books: Map::empty(), index: Seq::empty(), fees: Map::empty() }
    }

    /// The book of a pair; empty where the pair has no orders.
    pub open spec fn book(self, key: Seq<char>) -> Seq<OrderViewData> {
        if self.books.contains_key(key) {
            self.books[key]
        } else {
            Seq::empty()
        }
    }

    /// The state once `entry` stands in its pair's book and in the index.
    pub open spec fn with_order(self, entry: OrderViewData) -> MarketState {
        let key = pair_of(entry.order);
        MarketState {
            books: self.books.insert(key, put(self.book(key), entry)),
            index: put(self.index, entry),
            ..self
        }
    }

    /// The state once `id` is gone from the book of `key` and from the index;
    /// a book left empty goes with it.
    pub open spec fn without_order(self, key: Seq<char>, id: OrderId) -> MarketState {
        let rest = removed(self.book(key), id);
        MarketState {
            books: if rest.len() == 0 {
                self.books.remove(key)
            } else {
                self.books.insert(key, rest)
            },
            index: removed(self.index, id),
            ..self
        }
    }

    /// The fee record of an asset; the initial one where none is kept yet.
    pub open spec fn fee(self, token: Seq<char>) -> Fee {
        if self.fees.contains_key(token) {
            self.fees[token]
        } else {
            Fee::initial()
        }
    }

    /// The state once the asset's fee record is kept, whatever it was.
    pub open spec fn with_fee_record(self, token: Seq<char>) -> MarketState {
        MarketState { fees: self.fees.insert(token, self.fee(token)), ..self }
    }

    /// The state once the asset's rate is `percent`; what it has earned stays.
    pub open spec fn with_rate(self, token: Seq<char>, percent: u16) -> MarketState {
        MarketState {
            fees: self.fees.insert(
                token,
                Fee {
                    percent,
                    earned: if self.fees.contains_key(token) {
                        self.fees[token].earned
                    } else {
                        0
                    },
                },
            ),
            ..self
        }
    }

    /// The state once `amount` is added to what the asset has earned.
    pub open spec fn credited(self, token: Seq<char>, amount: u128) -> MarketState
        recommends
            self.fee(token).earned + amount <= u128::MAX,
    {
        MarketState {
            fees: self.fees.insert(
                token,
                Fee {
                    percent: self.fee(token).percent,
                    earned: (self.fee(token).earned + amount) as u128,
                },
            ),
            ..self
        }
    }

    /// The state once `amount` is taken from what the asset has earned, down
    /// to zero at most; an asset without a record stays without one.
    pub open spec fn debited(self, token: Seq<char>, amount: u128) -> MarketState {
        if self.fees.contains_key(token) {
            MarketState {
                fees: self.fees.insert(
                    token,
                    Fee {
                        percent: self.fees[token].percent,
                        earned: if self.fees[token].earned >= amount {
                            (self.fees[token].earned - amount) as u128
                        } else {
                            0
                        },
                    },
                ),
                ..self
            }
        } else {
            self
        }
    }

    /// Placing `order` under `order_id`: refused when the book of its pair
    /// holds that id already.
    pub open spec fn place(self, order: OrderData, order_id: OrderId) -> Result<MarketState, MarketError> {
        if holds(self.book(pair_of(order)), order_id) {
            Err(MarketError::DuplicateOrder)
        } else {
            Ok(self.with_order(OrderViewData { order, order_id }))
        }
    }

    /// Cancelling the order under `order_id` in the book of the pair, asked
    /// for by `caller`: only the maker may, and gets back what the order sells.
    pub open spec fn cancel(
        self,
        caller: Seq<char>,
        sell_token: Seq<char>,
        buy_token: Seq<char>,
        order_id: OrderId,
    ) -> Result<(MarketState, TransferData), MarketError> {
        let key = pair_key(sell_token, buy_token);
        match lookup(self.book(key), order_id) {
            None => Err(MarketError::OrderNotFound),
            Some(order) => if order.maker != caller {
                Err(MarketError::PermissionDenied)
            } else {
                Ok(
                    (
                        self.without_order(key, order_id),
                        transfer_of(order.maker, order.sell_amount, Seq::empty(), order.sell_token),
                    ),
                )
            },
        }
    }

    /// A fill begins: `sender_id` has sent `amount` of `token` for the order
    /// under `order_id`. The order must be known and ask for just that.
    pub open spec fn fill(self, sender_id: Seq<char>, order_id: OrderId, amount: u128, token: Seq<char>) -> Result<
        StepData,
        MarketError,
    > {
        match lookup(self.index, order_id) {
            None => Err(MarketError::OrderNotFound),
            Some(order) => if order.buy_amount != amount {
                Err(MarketError::InvalidAmount)
            } else if order.buy_token != token {
                Err(MarketError::InvalidToken)
            } else {
                Ok(maker_leg(order, order_id, sender_id))
            },
        }
    }

    /// The transfer to the maker has resolved with `results`. Exactly one
    /// result is expected; on success the taker is paid next, at the rate the
    /// asset has now, and the asset's fee record is kept from then on.
    pub open spec fn maker_paid(
        self,
        results: Seq<TransferOutcome>,
        sender_id: Seq<char>,
        sell_amount: u128,
        sell_token: Seq<char>,
        buy_token: Seq<char>,
        order_id: OrderId,
    ) -> Result<(MarketState, StepData), MarketError> {
        if results.len() != 1 {
            Err(MarketError::BadCallbackResultCount)
        } else if results[0] != TransferOutcome::Succeeded {
            Err(MarketError::SettlementAborted)
        } else {
            Ok(
                (
                    self.with_fee_record(sell_token),
                    taker_leg(
                        sender_id,
                        sell_amount,
                        sell_token,
                        buy_token,
                        order_id,
                        self.fee(sell_token).percent,
                    ),
                ),
            )
        }
    }

    /// The transfer to the taker has resolved with `results`. Exactly one
    /// result is expected, and the pair must still have a book; on success
    /// `fee` is booked as earned; either way the order leaves.
    pub open spec fn taker_paid(
        self,
        results: Seq<TransferOutcome>,
        fee: u128,
        sell_token: Seq<char>,
        buy_token: Seq<char>,
        order_id: OrderId,
    ) -> Result<MarketState, MarketError>
        recommends
            self.fee(sell_token).earned + fee <= u128::MAX,
    {
        let key = pair_key(sell_token, buy_token);
        if results.len() != 1 {
            Err(MarketError::BadCallbackResultCount)
        } else if !self.books.contains_key(key) {
            Err(MarketError::Internal)
        } else if results[0] == TransferOutcome::Succeeded {
            Ok(self.credited(sell_token, fee).without_order(key, order_id))
        } else {
            Ok(self.without_order(key, order_id))
        }
    }

    /// Setting the rate of an asset: only the owner may.
    pub open spec fn set_rate(self, by_owner: bool, token: Seq<char>, percent: u16) -> Result<
        MarketState,
        MarketError,
    > {
        if by_owner {
            Ok(self.with_rate(token, percent))
        } else {
            Err(MarketError::PermissionDenied)
        }
    }

    /// Paying out `amount` of the fees earned in `token`: only the owner may,
    /// and no more than has been earned.
    pub open spec fn pay_out(self, by_owner: bool, token: Seq<char>, amount: u128, receiver: Seq<char>) -> Result<
        StepData,
        MarketError,
    > {
        if !by_owner {
            Err(MarketError::PermissionDenied)
        } else if amount > self.fee(token).earned {
            Err(MarketError::InsufficientFunds)
        } else {
            Ok(payout(token, amount, receiver))
        }
    }

    /// The payout has resolved with `results`. Exactly one result is expected;
    /// on success the amount is taken off what the asset has earned.
    pub open spec fn paid_out(self, results: Seq<TransferOutcome>, token: Seq<char>, amount: u128) -> Result<
        MarketState,
        MarketError,
    > {
        if results.len() != 1 {
            Err(MarketError::BadCallbackResultCount)
        } else if results[0] == TransferOutcome::Succeeded {
            Ok(self.debited(token, amount))
        } else {
            Ok(self)
        }
    }

    /// `sender_id` has sent `amount` of `token` with the text `msg`, read as
    /// `message` where it could be read. An empty text sends the amount back;
    /// a text that could not be read is refused; a fill begins the
    /// settlement; a new order is placed and the amount reported as unused.
    pub open spec fn receive(
        self,
        token: Seq<char>,
        sender_id: Seq<char>,
        amount: u128,
        msg: Seq<char>,
        message: Option<MessageData>,
    ) -> Result<(MarketState, ReceiptData), MarketError> {
        if msg.len() == 0 {
            Ok((self, ReceiptData::Unused(amount)))
        } else {
            match message {
                None => Err(MarketError::BadMessageFormat),
                Some(MessageData::Match { order_id }) => match self.fill(sender_id, order_id, amount, token) {
                    Ok(step) => Ok((self, ReceiptData::Pending(step))),
                    Err(e) => Err(e),
                },
                Some(MessageData::NewOrder(action)) => {
                    let order = order_from(action, sender_id);
                    match self.place(order, order_id_of(order)) {
                        Ok(next) => Ok((next, ReceiptData::Unused(amount))),
                        Err(e) => Err(e),
                    }
                },
            }
        }
    }
}

/// A market in order is in order once an entry stands in its pair's book and
/// in the index.
pub proof fn lemma_with_order(st: MarketState, entry: OrderViewData)
    requires
        st.wf(),
    ensures
        st.with_order(entry).wf(),
{
    let key = pair_of(entry.order);
    let after = st.with_order(entry);
    lemma_put(st.book(key), entry);
    lemma_put(st.index, entry);
    assert forall|k: Seq<char>, id: OrderId|
        #![trigger lookup(after.books[k], id)]
        after.books.contains_key(k) && lookup(after.books[k], id) is Some implies pair_of(
            lookup(after.books[k], id)->Some_0,
        ) == k by {
        if k == key && id != entry.order_id {
            assert(lookup(after.books[k], id) == lookup(st.book(key), id));
        }
    }
    assert forall|id: OrderId|
        #![trigger lookup(after.index, id)]
        lookup(after.index, id) is Some implies lookup(
            after.book(pair_of(lookup(after.index, id)->Some_0)),
            id,
        ) == lookup(after.index, id) by {
        if id != entry.order_id {
            assert(lookup(st.book(pair_of(lookup(st.index, id)->Some_0)), id) == lookup(st.index, id));
        }
    }
}

/// A market in order is in order once an id is gone from a pair's book and
/// from the index.
pub proof fn lemma_without_order(st: MarketState, key: Seq<char>, id: OrderId)
    requires
        st.wf(),
    ensures
        st.without_order(key, id).wf(),
{
    let after = st.without_order(key, id);
    let rest = removed(st.book(key), id);
    lemma_removed(st.book(key), id);
    lemma_removed(st.index, id);
    assert forall|k: Seq<char>, other: OrderId|
        #![trigger lookup(after.books[k], other)]
        after.books.contains_key(k) && lookup(after.books[k], other) is Some implies pair_of(
            lookup(after.books[k], other)->Some_0,
        ) == k by {
        if k == key {
            assert(lookup(rest, other) == lookup(st.book(key), other));
        }
    }
}

} // verus!
