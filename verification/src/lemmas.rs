//! What holds of the market's operations taken together.

use vstd::prelude::*;
use crate::book::{lemma_holds, lemma_put, lemma_removed, lookup, top};
use crate::constants::BOOK_VIEW_LIMIT;
use crate::errors::MarketError;
use crate::fees::{fee_part, lemma_net_at_most};
use crate::order::{OrderData, OrderViewData};
use crate::order_id::OrderId;
use crate::settlement::{maker_leg, taker_leg, StepData, TransferOutcome};
use crate::state::{lemma_with_order, lemma_without_order, pair_key, pair_of, MarketState};

verus! {

/// In the view of a pair's book, an order of the pair with a lower price rank
/// stands before every shown order with a higher rank: if the order at place
/// `b` of the view has a higher rank than the order at place `a` of the book,
/// then `a < b`, so the order at `a` is shown too, at place `a`.
pub proof fn lemma_lower_rank_shown_first(st: MarketState, key: Seq<char>, a: int, b: int)
    requires
        st.wf(),
        st.books.contains_key(key),
        0 <= a < st.books[key].len(),
        0 <= b < top(st.books[key], BOOK_VIEW_LIMIT as int).len(),
        st.books[key][a].order_id.0 < top(st.books[key], BOOK_VIEW_LIMIT as int)[b].order_id.0,
    ensures
        a < b,
        top(st.books[key], BOOK_VIEW_LIMIT as int)[a] == st.books[key][a],
{
}

/// Placing keeps a market in order.
pub proof fn lemma_place_keeps_order(st: MarketState, order: OrderData, order_id: OrderId)
    requires
        st.wf(),
        st.place(order, order_id) is Ok,
    ensures
        st.place(order, order_id)->Ok_0.wf(),
{
    lemma_with_order(st, OrderViewData { order, order_id });
}

/// Cancelling keeps a market in order.
pub proof fn lemma_cancel_keeps_order(
    st: MarketState,
    caller: Seq<char>,
    sell_token: Seq<char>,
    buy_token: Seq<char>,
    order_id: OrderId,
)
    requires
        st.wf(),
        st.cancel(caller, sell_token, buy_token, order_id) is Ok,
    ensures
        st.cancel(caller, sell_token, buy_token, order_id)->Ok_0.0.wf(),
{
    lemma_without_order(st, pair_key(sell_token, buy_token), order_id);
}

/// Placing is refused just when some entry of the pair's book has the id.
pub proof fn lemma_refused_when_id_stands(st: MarketState, order: OrderData, order_id: OrderId)
    requires
        st.wf(),
    ensures
        st.place(order, order_id) is Err <==> exists|i: int|
            0 <= i < st.book(pair_of(order)).len() && #[trigger] st.book(pair_of(order))[i].order_id == order_id,
{
    lemma_holds(st.book(pair_of(order)), order_id);
}

/// An order that was placed is refused when it is placed again, under the
/// same id, in the same pair.
pub proof fn lemma_placed_twice_is_refused(st: MarketState, order: OrderData, order_id: OrderId)
    requires
        st.wf(),
        st.place(order, order_id) is Ok,
    ensures
        st.place(order, order_id)->Ok_0.place(order, order_id) == Err::<MarketState, MarketError>(
            MarketError::DuplicateOrder,
        ),
{
    let entry = OrderViewData { order, order_id };
    lemma_put(st.book(pair_of(order)), entry);
}

/// An order that was placed is found under its id, just as it was placed.
pub proof fn lemma_placed_is_found(st: MarketState, order: OrderData, order_id: OrderId)
    requires
        st.wf(),
        st.place(order, order_id) is Ok,
    ensures
        lookup(st.place(order, order_id)->Ok_0.index, order_id) == Some(order),
        lookup(st.place(order, order_id)->Ok_0.book(pair_of(order)), order_id) == Some(order),
{
    let entry = OrderViewData { order, order_id };
    lemma_put(st.book(pair_of(order)), entry);
    lemma_put(st.index, entry);
}

/// An order that was cancelled is found no more, neither under its id nor in
/// its pair's book; and a pair whose only order it was has no book any more.
pub proof fn lemma_cancelled_is_gone(
    st: MarketState,
    caller: Seq<char>,
    sell_token: Seq<char>,
    buy_token: Seq<char>,
    order_id: OrderId,
)
    requires
        st.wf(),
        st.cancel(caller, sell_token, buy_token, order_id) is Ok,
    ensures
        ({
            let after = st.cancel(caller, sell_token, buy_token, order_id)->Ok_0.0;
            let key = pair_key(sell_token, buy_token);
            &&& lookup(after.index, order_id) is None
            &&& lookup(after.book(key), order_id) is None
            &&& st.book(key).len() == 1 ==> !after.books.contains_key(key)
            &&& st.book(key).len() > 1 ==> after.books.contains_key(key)
        }),
{
    let key = pair_key(sell_token, buy_token);
    lemma_removed(st.book(key), order_id);
    lemma_removed(st.index, order_id);
}

/// A fill that runs to its end. Given an order that rests in the market and
/// a taker who sends just what the order asks for: the fill begins with the
/// transfer of that to the maker; when it has succeeded, the taker is sent
/// what the order sells, less the fee; when that has succeeded too, the order
/// is gone from the index and from its pair's book, and what the asset sold
/// has earned has grown by the part of the sell amount that the fee took.
pub proof fn lemma_fill_runs_to_its_end(
    st: MarketState,
    order: OrderData,
    order_id: OrderId,
    sender_id: Seq<char>,
)
    requires
        st.wf(),
        lookup(st.index, order_id) == Some(order),
        st.fee(order.sell_token).earned + fee_part(
            order.sell_amount as nat,
            st.fee(order.sell_token).percent as nat,
        ) <= u128::MAX,
    ensures
        ({
            let once = seq![TransferOutcome::Succeeded];
            let first = st.fill(sender_id, order_id, order.buy_amount, order.buy_token);
            let second = st.maker_paid(
                once,
                sender_id,
                order.sell_amount,
                order.sell_token,
                order.buy_token,
                order_id,
            );
            let fee = fee_part(order.sell_amount as nat, st.fee(order.sell_token).percent as nat) as u128;
            let last = second->Ok_0.0.taker_paid(once, fee, order.sell_token, order.buy_token, order_id);
            &&& first == Ok::<StepData, MarketError>(maker_leg(order, order_id, sender_id))
            &&& second is Ok
            &&& second->Ok_0.1 == taker_leg(
                sender_id,
                order.sell_amount,
                order.sell_token,
                order.buy_token,
                order_id,
                st.fee(order.sell_token).percent,
            )
            &&& second->Ok_0.1.transfer.amount + fee == order.sell_amount
            &&& last is Ok
            &&& lookup(last->Ok_0.index, order_id) is None
            &&& lookup(last->Ok_0.book(pair_of(order)), order_id) is None
            &&& last->Ok_0.fee(order.sell_token).earned == st.fee(order.sell_token).earned + fee
        }),
{
    let key = pair_of(order);
    let mid = st.with_fee_record(order.sell_token);
    let percent = st.fee(order.sell_token).percent;
    let fee = fee_part(order.sell_amount as nat, percent as nat) as u128;
    lemma_net_at_most(order.sell_amount as nat, percent as nat);
    let booked = mid.credited(order.sell_token, fee);
    lemma_removed(booked.book(key), order_id);
    lemma_removed(booked.index, order_id);
}

/// The order of a fill rests until the transfer to the taker has resolved:
/// the step that follows the transfer to the maker leaves every book and the
/// index as they were, whatever the results are.
pub proof fn lemma_order_rests_until_taker_is_paid(
    st: MarketState,
    results: Seq<TransferOutcome>,
    sender_id: Seq<char>,
    sell_amount: u128,
    sell_token: Seq<char>,
    buy_token: Seq<char>,
    order_id: OrderId,
)
    ensures
        match st.maker_paid(results, sender_id, sell_amount, sell_token, buy_token, order_id) {
            Ok((next, _)) => next.books == st.books && next.index == st.index,
            Err(_) => true,
        },
{
}

/// The step that follows the transfer to the taker takes the order out, in
/// the index and in its pair's book, whether the transfer succeeded or not;
/// the fee is booked as earned only if it succeeded, and no other fee record
/// changes.
pub proof fn lemma_taker_step_takes_order_out(
    st: MarketState,
    results: Seq<TransferOutcome>,
    fee: u128,
    sell_token: Seq<char>,
    buy_token: Seq<char>,
    order_id: OrderId,
)
    requires
        st.wf(),
        st.taker_paid(results, fee, sell_token, buy_token, order_id) is Ok,
        st.fee(sell_token).earned + fee <= u128::MAX,
    ensures
        ({
            let after = st.taker_paid(results, fee, sell_token, buy_token, order_id)->Ok_0;
            &&& lookup(after.index, order_id) is None
            &&& lookup(after.book(pair_key(sell_token, buy_token)), order_id) is None
            &&& results[0] == TransferOutcome::Succeeded ==> after.fee(sell_token).earned == st.fee(
                sell_token,
            ).earned + fee
            &&& results[0] == TransferOutcome::Failed ==> after.fees == st.fees
            &&& forall|token: Seq<char>| token != sell_token ==> after.fee(token) == st.fee(token)
        }),
{
    let key = pair_key(sell_token, buy_token);
    lemma_removed(st.book(key), order_id);
    lemma_removed(st.index, order_id);
}

/// A fill whose transfer to the maker fails stops there. Given an order that
/// rests in the market and a taker who sends just what the order asks for:
/// the step after the failed transfer is refused, which leaves the books and
/// the fee records as they were; so the order still rests, and the same fill
/// begins as before.
pub proof fn lemma_failed_maker_transfer_stops_fill(
    st: MarketState,
    order: OrderData,
    order_id: OrderId,
    sender_id: Seq<char>,
)
    requires
        st.wf(),
        lookup(st.index, order_id) == Some(order),
    ensures
        st.fill(sender_id, order_id, order.buy_amount, order.buy_token) == Ok::<StepData, MarketError>(
            maker_leg(order, order_id, sender_id),
        ),
        st.maker_paid(
            seq![TransferOutcome::Failed],
            sender_id,
            order.sell_amount,
            order.sell_token,
            order.buy_token,
            order_id,
        ) == Err::<(MarketState, StepData), MarketError>(MarketError::SettlementAborted),
{
}

} // verus!
