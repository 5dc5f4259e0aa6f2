use std::collections::hash_map::DefaultHasher;
use std::hash::{Hash, Hasher};

use order_market::constants::{FT_TRANSFER_TGAS, HUNDRED_PERCENT, ONE_YOCTO, PRICE_BIAS, RESERVE_TGAS};
use order_market::errors::MarketError;
use order_market::fees::{net_amount, Fee};
use order_market::helpers::{assert_owner, compose_key, ft_transfer, get_next_gas, CallContext};
use order_market::book::{copy_entries, OrderBook};
use order_market::market::{BookPart, FeeRecord, Market, MarketParts};
use order_market::order::{check_amounts, NewOrderAction, Order, OrderView};
use order_market::order_id::OrderId;
use order_market::settlement::{Callback, Receipt, Step, TokenReceiverMessage, Transfer, TransferOutcome};
use order_market::storage::StorageKey;

const OWNER: &str = "aromankov.testnet";
const XABR: &str = "xabr.allbridge.testnet";
const ABR: &str = "abr.allbridge.testnet";

fn s(text: &str) -> String {
    text.to_string()
}

fn owner_call() -> CallContext {
    CallContext { current_account_id: s(OWNER), predecessor_account_id: s(OWNER) }
}

fn call_from(caller: &str) -> CallContext {
    CallContext { current_account_id: s(OWNER), predecessor_account_id: s(caller) }
}

fn create_test_order(sell_amount: u128, buy_amount: u128) -> Order {
    Order {
        maker: s("maker.near"),
        sell_token: s(XABR),
        sell_amount,
        buy_token: s(ABR),
        buy_amount,
    }
}

fn action(sell_token: &str, sell_amount: u128, buy_token: &str, buy_amount: u128) -> NewOrderAction {
    NewOrderAction { sell_token: s(sell_token), sell_amount, buy_token: s(buy_token), buy_amount }
}

fn fee_test(contract: &mut Market, token: &str, amount: u128, expect: u128) {
    assert_eq!(contract.take_fee(amount, &s(token)), expect);
}

fn digest_by_hand(order: &Order) -> u64 {
    let mut hasher = DefaultHasher::new();
    order.maker.hash(&mut hasher);
    order.sell_token.hash(&mut hasher);
    order.sell_amount.hash(&mut hasher);
    order.buy_token.hash(&mut hasher);
    order.buy_amount.hash(&mut hasher);
    hasher.finish()
}

/// A market with one resting order: `maker.near` sells 20 of X for 300 of Y.
fn market_with_resting_order() -> (Market, Order, OrderId) {
    let mut market = Market::new(1);
    let order = Order { maker: s("maker.near"), sell_token: s("x.near"), sell_amount: 20, buy_token: s("y.near"), buy_amount: 300 };
    let order_id = order.get_id();
    assert_eq!(market.add_order(action("x.near", 20, "y.near", 300), s("maker.near")), Ok(()));
    (market, order, order_id)
}

#[test]
fn test() {
    let market = Market::new(1);
    assert_eq!(market.version(), 1);
    assert!(market.get_pairs().is_empty());
    assert_eq!(market.get_order(OrderId(1, 1)), None);
    assert_eq!(market.get_orders(s(XABR), s(ABR)), None);
}

#[test]
fn test_fee() {
    let mut contract = Market::new(1);

    fee_test(&mut contract, "sometoken.near", 100, 99);
    fee_test(&mut contract, "sometoken.near", 23200, 22968);
    fee_test(&mut contract, "sometoken.near", 1111111, 1099999);
    fee_test(&mut contract, "sometoken.near", 1000000000000000000000000000, 990000000000000000000000000);

    assert_eq!(contract.set_fee(&owner_call(), s("sometoken2.near"), 500), Ok(()));

    fee_test(&mut contract, "sometoken2.near", 100, 95);
    fee_test(&mut contract, "sometoken2.near", 23200, 22040);
    fee_test(&mut contract, "sometoken2.near", 1111111, 1055555);
    fee_test(&mut contract, "sometoken2.near", 1000000000000000000000000000, 950000000000000000000000000);
}

#[test]
fn test_fee_wrong_permissions() {
    let mut contract = Market::new(1);
    let stranger = call_from("someone.testnet");
    assert_eq!(contract.set_fee(&stranger, s("sometoken2.near"), 500), Err(MarketError::PermissionDenied));
    assert_eq!(contract.fee_info(&s("sometoken2.near")), Fee::new(100, 0));
    fee_test(&mut contract, "sometoken2.near", 100, 99);
}

#[test]
fn test_fee_bounds_are_accepted() {
    let mut contract = Market::new(1);
    assert_eq!(contract.set_fee(&owner_call(), s("a.near"), 1), Ok(()));
    assert_eq!(contract.set_fee(&owner_call(), s("b.near"), HUNDRED_PERCENT), Ok(()));
    fee_test(&mut contract, "a.near", 10000, 9999);
    fee_test(&mut contract, "a.near", 9999, 9998);
    fee_test(&mut contract, "b.near", 10000, 0);
    fee_test(&mut contract, "b.near", u128::MAX, 0);
}

#[test]
fn test_set_fee_keeps_earned() {
    let mut contract = Market::new(1);
    contract.on_success_deposit(7, &s("a.near"));
    assert_eq!(contract.fee_info(&s("a.near")), Fee::new(100, 7));
    assert_eq!(contract.set_fee(&owner_call(), s("a.near"), 250), Ok(()));
    assert_eq!(contract.fee_info(&s("a.near")), Fee::new(250, 7));
    contract.internal_set_fee(s("b.near"), 300);
    assert_eq!(contract.fee_info(&s("b.near")), Fee::new(300, 0));
}

#[test]
fn test_net_amount_of_large_amounts() {
    assert_eq!(net_amount(u128::MAX, 0), u128::MAX);
    assert_eq!(net_amount(u128::MAX, 100), 336879543251729078828740861357450529340);
    assert_eq!(net_amount(u128::MAX, 10000), 0);
    assert_eq!(net_amount(0, 100), 0);
    assert_eq!(net_amount(1, 100), 0);
    assert_eq!(net_amount(20, 100), 19);
}

#[test]
fn test_get_or_create_fee_info() {
    let mut contract = Market::new(1);
    assert_eq!(contract.get_or_create_fee_info(&s("a.near")), Fee { percent: 100, earned: 0 });
    contract.internal_set_fee(s("a.near"), 42);
    assert_eq!(contract.get_or_create_fee_info(&s("a.near")), Fee { percent: 42, earned: 0 });
}

#[test]
fn test_order_hash() {
    let order = create_test_order(1000000000000000000000000, 1000000000000000000000000);
    let order1 = create_test_order(1000000000000000000000000, 1000000000000000000000000);

    assert_eq!(order.get_id(), order1.get_id());

    let order2 = Order {
        maker: s("maker.near"),
        sell_token: s(ABR),
        sell_amount: 1000000000000000000000000,
        buy_token: s("xbr.allbridge.testnet"),
        buy_amount: 1000000000000000000000000,
    };

    assert_ne!(order.get_id(), order2.get_id());
}

#[test]
fn test_order_id_changes_with_each_field() {
    let base = create_test_order(1000, 10);
    let id = base.get_id();
    let mut other = base.clone();
    other.maker = s("other.near");
    assert_ne!(other.get_id(), id);
    let mut other = base.clone();
    other.sell_token = s("z.near");
    assert_ne!(other.get_id(), id);
    let mut other = base.clone();
    other.sell_amount = 1001;
    assert_ne!(other.get_id(), id);
    let mut other = base.clone();
    other.buy_token = s("z.near");
    assert_ne!(other.get_id(), id);
    let mut other = base.clone();
    other.buy_amount = 11;
    assert_ne!(other.get_id(), id);
    assert_eq!(base.clone().get_id(), id);
}

#[test]
fn test_order_id_parts() {
    let order = create_test_order(2, 1);
    let id = order.get_id();
    assert_eq!(id.0, PRICE_BIAS + 2);
    assert_eq!(id.0, order.get_price_for_key());
    assert_eq!(id.1, digest_by_hand(&order));
    assert_eq!(OrderId::from_order(&order), id);
    assert_eq!(order.id_with_digest(77), OrderId(PRICE_BIAS + 2, 77));
}

#[test]
fn test_price_rank_rounds_down() {
    assert_eq!(create_test_order(1, 3).get_price_for_key(), 333333333333333333333333333333);
    assert_eq!(create_test_order(5, 2).get_price_for_key(), 500000000000000000000000000002);
    assert_eq!(create_test_order(1, u128::MAX).get_price_for_key(), 0);
    assert_eq!(create_test_order(u128::MAX - PRICE_BIAS, 1).get_price_for_key(), u128::MAX);
}

#[test]
fn test_check_amounts() {
    assert!(check_amounts(1, 1));
    assert!(check_amounts(u128::MAX - PRICE_BIAS, u128::MAX));
    assert!(!check_amounts(0, 1));
    assert!(!check_amounts(1, 0));
    assert!(!check_amounts(u128::MAX - PRICE_BIAS + 1, 1));
}

#[test]
fn test_order_id_order_and_text() {
    assert!(OrderId(1, 9).precedes(&OrderId(2, 0)));
    assert!(OrderId(1, 1).precedes(&OrderId(1, 2)));
    assert!(!OrderId(1, 2).precedes(&OrderId(1, 2)));
    assert!(!OrderId(2, 0).precedes(&OrderId(1, 9)));
    assert!(OrderId(1, 9) < OrderId(2, 0));
    assert!(OrderId(1, 1) < OrderId(1, 2));
    assert_eq!(OrderId(12, 34).to_string(), "1234");
    assert_eq!(OrderId(0, 0).to_string(), "00");
    assert_eq!(
        OrderId(u128::MAX, u64::MAX).to_string(),
        "34028236692093846346337460743176821145518446744073709551615"
    );
}

#[test]
fn test_from_action() {
    let order = Order::from_action(action(XABR, 5, ABR, 7), s("maker.near"));
    assert_eq!(order, create_test_order(5, 7));
    assert!(order.same_as(&create_test_order(5, 7)));
    assert!(!order.same_as(&create_test_order(5, 8)));
    assert!(!order.same_as(&Order { maker: s("other.near"), ..create_test_order(5, 7) }));
}

#[test]
fn test_compose_key() {
    assert_eq!(compose_key(&s(XABR), &s(ABR)), "xabr.allbridge.testnet#abr.allbridge.testnet");
    assert_eq!(compose_key(&s(""), &s("")), "#");
}

#[test]
fn test_assert_owner() {
    assert_eq!(assert_owner(&owner_call()), Ok(()));
    assert_eq!(assert_owner(&call_from("someone.testnet")), Err(MarketError::PermissionDenied));
}

#[test]
fn test_get_next_gas() {
    assert_eq!(get_next_gas(300_000_000_000_000, 10_000_000_000_000), 225_000_000_000_000);
    assert_eq!(get_next_gas(FT_TRANSFER_TGAS + RESERVE_TGAS, 0), 0);
}

#[test]
fn test_ft_transfer() {
    let transfer = ft_transfer(&s("bob.near"), 5, "note", &s("x.near"));
    assert_eq!(
        transfer,
        Transfer {
            receiver_id: s("bob.near"),
            amount: 5,
            msg: s("note"),
            token: s("x.near"),
            deposit: ONE_YOCTO,
            gas: FT_TRANSFER_TGAS,
        }
    );
    assert_eq!(transfer.deposit, 1);
    assert_eq!(transfer.gas, 50_000_000_000_000);
}

#[test]
fn test_add_order() {
    let mut contract = Market::new(1);

    let new_order_action_1 = action(XABR, 1000000000000000000000000, ABR, 1000000000000000000000000);
    assert_eq!(contract.add_order(new_order_action_1.clone(), s(OWNER)), Ok(()));

    let new_order_action_2 = action(ABR, 1000000000000000000000000, XABR, 1000000000000000000000000);
    assert_eq!(contract.add_order(new_order_action_2.clone(), s(OWNER)), Ok(()));

    // check get pairs
    assert!(contract.get_pairs().len() != 0);

    // check get orders
    let orders_1 = contract
        .get_orders(new_order_action_1.sell_token.clone(), new_order_action_1.buy_token.clone())
        .unwrap();
    assert!(orders_1.len() == 1);

    let orders_2 = contract
        .get_orders(new_order_action_2.sell_token.clone(), new_order_action_2.buy_token.clone())
        .unwrap();
    assert!(orders_2.len() == 1);

    let order_2 = orders_2.get(0).unwrap();
    let order_id_2 = order_2.order_id;
    assert_eq!(
        *order_2,
        OrderView {
            order: Order {
                buy_amount: new_order_action_2.buy_amount,
                sell_amount: new_order_action_2.sell_amount,
                buy_token: new_order_action_2.buy_token.clone(),
                sell_token: new_order_action_2.sell_token.clone(),
                maker: s(OWNER),
            },
            order_id: order_id_2
        }
    );

    let order_1 = orders_1.get(0).unwrap();
    let order_id_1 = order_1.order_id;

    assert_eq!(
        *order_1,
        OrderView {
            order: Order {
                buy_amount: new_order_action_1.buy_amount,
                sell_amount: new_order_action_1.sell_amount,
                buy_token: new_order_action_1.buy_token.clone(),
                sell_token: new_order_action_1.sell_token.clone(),
                maker: s(OWNER),
            },
            order_id: order_id_1
        }
    );

    // check remove order
    assert!(contract.get_order(order_id_1).is_some());

    let refund_1 = contract
        .remove_order(&owner_call(), new_order_action_1.sell_token.clone(), new_order_action_1.buy_token.clone(), order_id_1)
        .unwrap();
    assert_eq!(refund_1, ft_transfer(&s(OWNER), 1000000000000000000000000, "", &s(XABR)));

    let refund_2 = contract
        .remove_order(&owner_call(), new_order_action_2.sell_token.clone(), new_order_action_2.buy_token.clone(), order_id_2)
        .unwrap();
    assert_eq!(refund_2, ft_transfer(&s(OWNER), 1000000000000000000000000, "", &s(ABR)));

    assert!(contract.get_pairs().len() == 0);
    assert!(contract.get_order(order_id_1).is_none());
    assert!(contract.get_order(order_id_2).is_none());
}

#[test]
fn test_orders_ordered_by_price() {
    let mut contract = Market::new(1);

    assert_eq!(contract.add_order(action(XABR, 2, ABR, 1), s(OWNER)), Ok(()));
    assert_eq!(contract.add_order(action(XABR, 1, ABR, 1), s(OWNER)), Ok(()));
    assert_eq!(contract.add_order(action(XABR, 1, ABR, 2), s(OWNER)), Ok(()));

    let orders = contract
        .get_orders(s(XABR), s(ABR))
        .unwrap()
        .into_iter()
        .map(|i| i.order.get_price_for_key())
        .collect::<Vec<_>>();

    assert_eq!(orders.len(), 3);
    assert!(orders[0] < orders[1]);
    assert!(orders[1] < orders[2]);
    assert_eq!(orders, vec![(PRICE_BIAS + 1) / 2, PRICE_BIAS + 1, PRICE_BIAS + 2]);
}

#[test]
fn test_equal_ranks_are_ordered_by_digest() {
    let mut contract = Market::new(1);
    let makers = ["a.near", "b.near", "c.near", "d.near"];
    for maker in makers {
        assert_eq!(contract.add_order(action(XABR, 10, ABR, 10), s(maker)), Ok(()));
    }
    let shown = contract.get_orders(s(XABR), s(ABR)).unwrap();
    assert_eq!(shown.len(), 4);
    let mut expected: Vec<OrderId> = makers
        .iter()
        .map(|maker| Order { maker: s(maker), sell_token: s(XABR), sell_amount: 10, buy_token: s(ABR), buy_amount: 10 }.get_id())
        .collect();
    expected.sort();
    let ids: Vec<OrderId> = shown.iter().map(|view| view.order_id).collect();
    assert_eq!(ids, expected);
    for pair in ids.windows(2) {
        assert_eq!(pair[0].0, pair[1].0);
        assert!(pair[0].1 < pair[1].1);
    }
}

#[test]
fn test_view_shows_the_five_lowest() {
    let mut contract = Market::new(1);
    for sell_amount in [7u128, 3, 9, 1, 5, 8, 2] {
        assert_eq!(contract.add_order(action(XABR, sell_amount, ABR, 1), s(OWNER)), Ok(()));
    }
    let shown = contract.get_orders(s(XABR), s(ABR)).unwrap();
    let amounts: Vec<u128> = shown.iter().map(|view| view.order.sell_amount).collect();
    assert_eq!(amounts, vec![1, 2, 3, 5, 7]);
    for view in &shown {
        assert_eq!(view.order_id, view.order.get_id());
        assert_eq!(contract.get_order(view.order_id), Some(view.order.clone()));
    }
    assert_eq!(contract.get_pairs(), vec![s("xabr.allbridge.testnet#abr.allbridge.testnet")]);
}

#[test]
fn test_duplicate_order_is_refused() {
    let mut contract = Market::new(1);
    assert_eq!(contract.add_order(action(XABR, 2, ABR, 1), s(OWNER)), Ok(()));
    assert_eq!(contract.add_order(action(XABR, 3, ABR, 1), s(OWNER)), Ok(()));
    let before = contract.get_orders(s(XABR), s(ABR)).unwrap();
    assert_eq!(contract.add_order(action(XABR, 2, ABR, 1), s(OWNER)), Err(MarketError::DuplicateOrder));
    let after = contract.get_orders(s(XABR), s(ABR)).unwrap();
    assert_eq!(after.len(), 2);
    assert_eq!(before, after);
    // another maker's order with the same terms is another order
    assert_eq!(contract.add_order(action(XABR, 2, ABR, 1), s("other.near")), Ok(()));
    assert_eq!(contract.get_orders(s(XABR), s(ABR)).unwrap().len(), 3);
}

#[test]
fn test_insert_order_under_a_given_id() {
    let mut contract = Market::new(1);
    let order = create_test_order(4, 2);
    assert_eq!(contract.insert_order(order.clone(), OrderId(9, 9)), Ok(()));
    assert_eq!(contract.insert_order(order.clone(), OrderId(9, 9)), Err(MarketError::DuplicateOrder));
    assert_eq!(contract.insert_order(order.clone(), OrderId(9, 8)), Ok(()));
    assert_eq!(contract.get_order(OrderId(9, 9)), Some(order.clone()));
    let shown = contract.get_orders(s(XABR), s(ABR)).unwrap();
    assert_eq!(
        shown,
        vec![
            OrderView { order: order.clone(), order_id: OrderId(9, 8) },
            OrderView { order: order.clone(), order_id: OrderId(9, 9) }
        ]
    );
}

#[test]
fn test_cancel_round_trip() {
    let mut contract = Market::new(1);
    assert_eq!(contract.add_order(action(XABR, 2, ABR, 1), s("maker.near")), Ok(()));
    assert_eq!(contract.add_order(action(XABR, 3, ABR, 1), s("maker.near")), Ok(()));
    let first = create_test_order(2, 1);
    let second = create_test_order(3, 1);
    assert_eq!(contract.get_order(first.get_id()), Some(first.clone()));
    assert_eq!(contract.get_order(second.get_id()), Some(second.clone()));

    let maker = call_from("maker.near");
    assert_eq!(
        contract.remove_order(&maker, s(XABR), s(ABR), first.get_id()),
        Ok(ft_transfer(&s("maker.near"), 2, "", &s(XABR)))
    );
    assert_eq!(contract.get_order(first.get_id()), None);
    assert_eq!(contract.get_pairs().len(), 1);
    assert_eq!(contract.get_orders(s(XABR), s(ABR)).unwrap().len(), 1);

    assert_eq!(
        contract.remove_order(&maker, s(XABR), s(ABR), second.get_id()),
        Ok(ft_transfer(&s("maker.near"), 3, "", &s(XABR)))
    );
    assert_eq!(contract.get_order(second.get_id()), None);
    assert!(contract.get_pairs().is_empty());
    assert_eq!(contract.get_orders(s(XABR), s(ABR)), None);
}

#[test]
fn test_cancel_is_refused() {
    let mut contract = Market::new(1);
    assert_eq!(contract.add_order(action(XABR, 2, ABR, 1), s("maker.near")), Ok(()));
    let id = create_test_order(2, 1).get_id();
    let maker = call_from("maker.near");
    assert_eq!(contract.remove_order(&call_from("thief.near"), s(XABR), s(ABR), id), Err(MarketError::PermissionDenied));
    assert_eq!(contract.remove_order(&maker, s(ABR), s(XABR), id), Err(MarketError::OrderNotFound));
    assert_eq!(contract.remove_order(&maker, s(XABR), s(ABR), OrderId(id.0, id.1 ^ 1)), Err(MarketError::OrderNotFound));
    assert_eq!(contract.get_order(id), Some(create_test_order(2, 1)));
    assert_eq!(contract.get_orders(s(XABR), s(ABR)).unwrap().len(), 1);
}

#[test]
fn test_internal_remove_order() {
    let mut contract = Market::new(1);
    assert_eq!(contract.add_order(action(XABR, 2, ABR, 1), s("maker.near")), Ok(()));
    let id = create_test_order(2, 1).get_id();
    assert_eq!(contract.internal_remove_order(&s(ABR), &s(XABR), &id), Err(MarketError::Internal));
    assert_eq!(contract.get_order(id), Some(create_test_order(2, 1)));
    // an id that the book does not hold leaves the book as it is
    assert_eq!(contract.internal_remove_order(&s(XABR), &s(ABR), &OrderId(0, 0)), Ok(()));
    assert_eq!(contract.get_orders(s(XABR), s(ABR)).unwrap().len(), 1);
    assert_eq!(contract.internal_remove_order(&s(XABR), &s(ABR), &id), Ok(()));
    assert_eq!(contract.get_order(id), None);
    assert!(contract.get_pairs().is_empty());
}

#[test]
fn test_fill_runs_to_its_end() {
    let (mut market, order, order_id) = market_with_resting_order();
    let once = vec![TransferOutcome::Succeeded];

    let first = market.match_order(&s("taker.near"), &order_id, 300, &s("y.near")).unwrap();
    assert_eq!(
        first,
        Step {
            transfer: ft_transfer(&s("maker.near"), 300, "", &s("y.near")),
            callback: Callback::OnSendTokensToMaker {
                sender_id: s("taker.near"),
                sell_amount: 20,
                sell_token: s("x.near"),
                buy_token: s("y.near"),
                order_id,
            },
        }
    );
    assert_eq!(market.get_order(order_id), Some(order.clone()));

    let second = market
        .callback_on_send_tokens_to_maker(&once, s("taker.near"), 20, s("x.near"), s("y.near"), order_id)
        .unwrap();
    assert_eq!(
        second,
        Step {
            transfer: ft_transfer(&s("taker.near"), 19, "", &s("x.near")),
            callback: Callback::AfterDeposit { fee: 1, sell_token: s("x.near"), buy_token: s("y.near"), order_id },
        }
    );
    // the order stays until the transfer to the taker has resolved
    assert_eq!(market.get_order(order_id), Some(order.clone()));
    assert_eq!(market.fee_info(&s("x.near")), Fee::new(100, 0));

    assert_eq!(
        market.callback_after_deposit(&once, 1, s("x.near"), s("y.near"), order_id),
        Ok(TransferOutcome::Succeeded)
    );
    assert_eq!(market.get_order(order_id), None);
    assert_eq!(market.get_orders(s("x.near"), s("y.near")), None);
    assert!(market.get_pairs().is_empty());
    assert_eq!(market.fee_info(&s("x.near")), Fee::new(100, 1));
    assert_eq!(market.fee_info(&s("y.near")), Fee::new(100, 0));
}

#[test]
fn test_fill_stops_when_maker_transfer_fails() {
    let (mut market, order, order_id) = market_with_resting_order();
    let failed = vec![TransferOutcome::Failed];

    assert!(market.match_order(&s("taker.near"), &order_id, 300, &s("y.near")).is_ok());
    assert_eq!(
        market.callback_on_send_tokens_to_maker(&failed, s("taker.near"), 20, s("x.near"), s("y.near"), order_id),
        Err(MarketError::SettlementAborted)
    );
    assert_eq!(market.get_order(order_id), Some(order.clone()));
    assert_eq!(market.get_orders(s("x.near"), s("y.near")).unwrap(), vec![OrderView { order: order.clone(), order_id }]);
    assert_eq!(market.fee_info(&s("x.near")), Fee::new(100, 0));
    // the order can be filled afterwards
    assert!(market.match_order(&s("second.near"), &order_id, 300, &s("y.near")).is_ok());
}

#[test]
fn test_failed_taker_transfer_still_removes_order() {
    let (mut market, _order, order_id) = market_with_resting_order();
    let failed = vec![TransferOutcome::Failed];
    assert_eq!(
        market.callback_after_deposit(&failed, 1, s("x.near"), s("y.near"), order_id),
        Ok(TransferOutcome::Failed)
    );
    assert_eq!(market.get_order(order_id), None);
    assert!(market.get_pairs().is_empty());
    assert_eq!(market.fee_info(&s("x.near")), Fee::new(100, 0));
}

#[test]
fn test_fill_uses_the_rate_of_the_moment() {
    let (mut market, _order, order_id) = market_with_resting_order();
    let once = vec![TransferOutcome::Succeeded];
    assert_eq!(market.set_fee(&owner_call(), s("x.near"), 2500), Ok(()));
    let second = market
        .callback_on_send_tokens_to_maker(&once, s("taker.near"), 20, s("x.near"), s("y.near"), order_id)
        .unwrap();
    assert_eq!(second.transfer.amount, 15);
    assert_eq!(
        second.callback,
        Callback::AfterDeposit { fee: 5, sell_token: s("x.near"), buy_token: s("y.near"), order_id }
    );
}

#[test]
fn test_order_stays_fillable_while_a_fill_is_under_way() {
    let (mut market, order, order_id) = market_with_resting_order();
    let once = vec![TransferOutcome::Succeeded];
    assert!(market.match_order(&s("first.near"), &order_id, 300, &s("y.near")).is_ok());
    assert!(market.callback_on_send_tokens_to_maker(&once, s("first.near"), 20, s("x.near"), s("y.near"), order_id).is_ok());
    // between the steps the books are open to everyone
    assert!(market.match_order(&s("second.near"), &order_id, 300, &s("y.near")).is_ok());
    assert_eq!(market.get_order(order_id), Some(order));
    assert_eq!(
        market.callback_after_deposit(&once, 1, s("x.near"), s("y.near"), order_id),
        Ok(TransferOutcome::Succeeded)
    );
    assert_eq!(market.match_order(&s("second.near"), &order_id, 300, &s("y.near")), Err(MarketError::OrderNotFound));
    // the second fill ends on a pair that has no book any more
    assert_eq!(market.callback_after_deposit(&once, 1, s("x.near"), s("y.near"), order_id), Err(MarketError::Internal));
    assert_eq!(market.fee_info(&s("x.near")), Fee::new(100, 1));
}

#[test]
fn test_match_order_is_refused() {
    let (market, _order, order_id) = market_with_resting_order();
    assert_eq!(market.match_order(&s("taker.near"), &OrderId(1, 2), 300, &s("y.near")), Err(MarketError::OrderNotFound));
    assert_eq!(market.match_order(&s("taker.near"), &order_id, 299, &s("y.near")), Err(MarketError::InvalidAmount));
    assert_eq!(market.match_order(&s("taker.near"), &order_id, 301, &s("x.near")), Err(MarketError::InvalidAmount));
    assert_eq!(market.match_order(&s("taker.near"), &order_id, 300, &s("x.near")), Err(MarketError::InvalidToken));
}

#[test]
fn test_callbacks_want_one_result() {
    let (mut market, order, order_id) = market_with_resting_order();
    let none: Vec<TransferOutcome> = vec![];
    let two = vec![TransferOutcome::Succeeded, TransferOutcome::Succeeded];
    for results in [&none, &two] {
        assert_eq!(
            market.callback_on_send_tokens_to_maker(results, s("taker.near"), 20, s("x.near"), s("y.near"), order_id),
            Err(MarketError::BadCallbackResultCount)
        );
        assert_eq!(
            market.callback_after_deposit(results, 1, s("x.near"), s("y.near"), order_id),
            Err(MarketError::BadCallbackResultCount)
        );
        assert_eq!(
            market.callback_on_send_tokens_to_ext_account(results, s("x.near"), 1),
            Err(MarketError::BadCallbackResultCount)
        );
    }
    assert_eq!(market.get_order(order_id), Some(order));
    assert_eq!(market.fee_info(&s("x.near")), Fee::new(100, 0));
}

#[test]
fn test_transfer_earned_fees() {
    let mut market = Market::new(1);
    market.on_success_deposit(50, &s("x.near"));
    let once = vec![TransferOutcome::Succeeded];
    let failed = vec![TransferOutcome::Failed];

    assert_eq!(
        market.transfer_earned_fees(&call_from("someone.near"), s("x.near"), 10, s("bank.near")),
        Err(MarketError::PermissionDenied)
    );
    assert_eq!(
        market.transfer_earned_fees(&owner_call(), s("x.near"), 51, s("bank.near")),
        Err(MarketError::InsufficientFunds)
    );
    assert_eq!(
        market.transfer_earned_fees(&owner_call(), s("y.near"), 1, s("bank.near")),
        Err(MarketError::InsufficientFunds)
    );
    let step = market.transfer_earned_fees(&owner_call(), s("x.near"), 50, s("bank.near")).unwrap();
    assert_eq!(
        step,
        Step {
            transfer: ft_transfer(&s("bank.near"), 50, "transfer from contract", &s("x.near")),
            callback: Callback::OnSendTokensToExtAccount { token: s("x.near"), amount: 50 },
        }
    );
    // nothing leaves the ledger before the transfer has succeeded
    assert_eq!(market.fee_info(&s("x.near")), Fee::new(100, 50));
    assert_eq!(
        market.callback_on_send_tokens_to_ext_account(&failed, s("x.near"), 50),
        Ok(TransferOutcome::Failed)
    );
    assert_eq!(market.fee_info(&s("x.near")), Fee::new(100, 50));
    assert_eq!(
        market.callback_on_send_tokens_to_ext_account(&once, s("x.near"), 30),
        Ok(TransferOutcome::Succeeded)
    );
    assert_eq!(market.fee_info(&s("x.near")), Fee::new(100, 20));
    // what is taken off stops at zero
    assert_eq!(
        market.callback_on_send_tokens_to_ext_account(&once, s("x.near"), 30),
        Ok(TransferOutcome::Succeeded)
    );
    assert_eq!(market.fee_info(&s("x.near")), Fee::new(100, 0));
    market.internal_on_tokens_sent_to_ext_account(&s("never.near"), 5);
    assert_eq!(market.fee_info(&s("never.near")), Fee::new(100, 0));
    // nothing is no more than has been earned
    let nothing = market.transfer_earned_fees(&owner_call(), s("never.near"), 0, s("bank.near")).unwrap();
    assert_eq!(nothing.transfer.amount, 0);
    assert_eq!(
        market.callback_on_send_tokens_to_ext_account(&once, s("never.near"), 0),
        Ok(TransferOutcome::Succeeded)
    );
    assert_eq!(market.to_parts().fees.len(), 1);
}

#[test]
fn test_ft_on_transfer() {
    let mut market = Market::new(1);
    let from_y = call_from("y.near");
    let new_order = TokenReceiverMessage::NewOrder(action("x.near", 20, "y.near", 300));
    let order = Order { maker: s("maker.near"), sell_token: s("x.near"), sell_amount: 20, buy_token: s("y.near"), buy_amount: 300 };
    let order_id = order.get_id();

    // an empty text sends everything back, whatever else is said
    assert_eq!(market.ft_on_transfer(&from_y, s("maker.near"), 20, "", None), Ok(Receipt::Unused(20)));
    assert_eq!(
        market.ft_on_transfer(&from_y, s("maker.near"), 20, "", Some(TokenReceiverMessage::NewOrder(action("x.near", 20, "y.near", 300)))),
        Ok(Receipt::Unused(20))
    );
    assert!(market.get_pairs().is_empty());

    assert_eq!(market.ft_on_transfer(&from_y, s("maker.near"), 20, "{", None), Err(MarketError::BadMessageFormat));

    assert_eq!(
        market.ft_on_transfer(&call_from("x.near"), s("maker.near"), 20, "new", Some(new_order)),
        Ok(Receipt::Unused(20))
    );
    assert_eq!(market.get_order(order_id), Some(order));
    assert_eq!(
        market.ft_on_transfer(
            &call_from("x.near"),
            s("maker.near"),
            20,
            "new",
            Some(TokenReceiverMessage::NewOrder(action("x.near", 20, "y.near", 300)))
        ),
        Err(MarketError::DuplicateOrder)
    );

    let fill = market.ft_on_transfer(&from_y, s("taker.near"), 300, "fill", Some(TokenReceiverMessage::Match { order_id }));
    assert_eq!(fill, Ok(Receipt::Pending(market.match_order(&s("taker.near"), &order_id, 300, &s("y.near")).unwrap())));
    assert_eq!(
        market.ft_on_transfer(&call_from("x.near"), s("taker.near"), 300, "fill", Some(TokenReceiverMessage::Match { order_id })),
        Err(MarketError::InvalidToken)
    );
    assert_eq!(
        market.ft_on_transfer(&from_y, s("taker.near"), 30, "fill", Some(TokenReceiverMessage::Match { order_id })),
        Err(MarketError::InvalidAmount)
    );
    assert_eq!(
        market.ft_on_transfer(&from_y, s("taker.near"), 300, "fill", Some(TokenReceiverMessage::Match { order_id: OrderId(0, 0) })),
        Err(MarketError::OrderNotFound)
    );
}

#[test]
fn test_error_messages() {
    assert_eq!(MarketError::Internal.message(), "E01: internal issue");
    assert_eq!(MarketError::DuplicateOrder.message(), "E02: order already exists");
    assert_eq!(MarketError::OrderNotFound.message(), "E03: order not found");
    assert_eq!(MarketError::PermissionDenied.message(), "E04: permission denied");
    assert_eq!(MarketError::InvalidAmount.message(), "E05: not valid amount");
    assert_eq!(MarketError::InvalidToken.message(), "E06: not valid token");
    assert_eq!(MarketError::BadMessageFormat.message(), "E07: wrong msg format");
    assert_eq!(MarketError::BadCallbackResultCount.message(), "E08: not correct promise result count");
    assert_eq!(MarketError::InsufficientFunds.message(), "E10: not enough FT");
    assert_eq!(MarketError::SettlementAborted.message(), "E01: internal issue");
}

#[test]
fn test_storage_keys() {
    assert_eq!(StorageKey::Orders.prefix(), 0);
    assert_eq!(StorageKey::OrderIdToOrder.prefix(), 1);
    assert_eq!(StorageKey::FeesByAccountIds.prefix(), 2);
}

fn entry(rank: u128, digest: u64) -> OrderView {
    OrderView { order: create_test_order(rank, 1), order_id: OrderId(rank, digest) }
}

#[test]
fn test_order_book() {
    let mut book = OrderBook::new();
    assert!(book.is_empty());
    assert_eq!(book.first(5), vec![]);
    book.insert(OrderId(5, 0), create_test_order(5, 1));
    book.insert(OrderId(2, 7), create_test_order(2, 1));
    book.insert(OrderId(9, 1), create_test_order(9, 1));
    book.insert(OrderId(2, 3), create_test_order(2, 1));
    assert_eq!(book.len(), 4);
    assert_eq!(book.entries(), vec![entry(2, 3), entry(2, 7), entry(5, 0), entry(9, 1)]);
    assert_eq!(book.first(2), vec![entry(2, 3), entry(2, 7)]);
    assert_eq!(book.first(0), vec![]);
    assert_eq!(book.first(9), book.entries());
    assert_eq!(book.entry(2), &entry(5, 0));
    assert!(book.contains_key(&OrderId(5, 0)));
    assert!(!book.contains_key(&OrderId(5, 1)));
    assert_eq!(book.get(&OrderId(9, 1)), Some(create_test_order(9, 1)));
    assert_eq!(book.get(&OrderId(1, 1)), None);
    // an order under an id that is held gives way
    book.insert(OrderId(5, 0), create_test_order(6, 1));
    assert_eq!(book.len(), 4);
    assert_eq!(book.get(&OrderId(5, 0)), Some(create_test_order(6, 1)));
    assert_eq!(book.remove(&OrderId(2, 7)), Some(create_test_order(2, 1)));
    assert_eq!(book.remove(&OrderId(2, 7)), None);
    assert_eq!(book.len(), 3);
    assert_eq!(
        book.entries(),
        vec![entry(2, 3), OrderView { order: create_test_order(6, 1), order_id: OrderId(5, 0) }, entry(9, 1)]
    );
}

#[test]
fn test_order_book_from_entries() {
    let ascending = vec![entry(1, 1), entry(1, 2), entry(3, 0)];
    assert_eq!(copy_entries(&ascending), ascending);
    let book = OrderBook::from_entries(copy_entries(&ascending)).unwrap();
    assert_eq!(book.entries(), ascending);
    assert!(OrderBook::from_entries(vec![]).unwrap().is_empty());
    assert!(OrderBook::from_entries(vec![entry(1, 1)]).is_some());
    assert!(OrderBook::from_entries(vec![entry(1, 2), entry(1, 1)]).is_none());
    assert!(OrderBook::from_entries(vec![entry(1, 1), entry(1, 1)]).is_none());
    assert!(OrderBook::from_entries(vec![entry(1, 1), entry(3, 0), entry(2, 0)]).is_none());
}

#[test]
fn test_market_parts_round_trip() {
    let mut market = Market::new(3);
    assert_eq!(market.add_order(action(XABR, 2, ABR, 1), s("maker.near")), Ok(()));
    assert_eq!(market.add_order(action(XABR, 1, ABR, 1), s("maker.near")), Ok(()));
    assert_eq!(market.add_order(action(ABR, 1, XABR, 4), s("other.near")), Ok(()));
    market.internal_set_fee(s(XABR), 250);
    market.on_success_deposit(9, &s(ABR));

    let parts = market.to_parts();
    assert_eq!(parts.version, 3);
    assert_eq!(parts.books.len(), 2);
    assert_eq!(parts.index.len(), 3);
    assert_eq!(
        parts.fees,
        vec![
            FeeRecord { token: s(XABR), fee: Fee::new(250, 0) },
            FeeRecord { token: s(ABR), fee: Fee::new(100, 9) }
        ]
    );
    assert_eq!(
        parts.books[0],
        BookPart {
            key: s("xabr.allbridge.testnet#abr.allbridge.testnet"),
            orders: market.get_orders(s(XABR), s(ABR)).unwrap(),
        }
    );

    let again = Market::from_parts(market.to_parts()).unwrap();
    assert_eq!(again.to_parts(), parts);
    assert_eq!(again.version(), 3);
    assert_eq!(again.get_pairs(), market.get_pairs());
    assert_eq!(again.get_orders(s(XABR), s(ABR)), market.get_orders(s(XABR), s(ABR)));
    assert_eq!(again.get_order(create_test_order(2, 1).get_id()), Some(create_test_order(2, 1)));
    assert_eq!(again.fee_info(&s(XABR)), Fee::new(250, 0));
    assert_eq!(again.fee_info(&s(ABR)), Fee::new(100, 9));
}

#[test]
fn test_market_parts_out_of_order_are_refused() {
    let good = || MarketParts {
        version: 1,
        books: vec![BookPart { key: compose_key(&s(XABR), &s(ABR)), orders: vec![entry(1, 1), entry(2, 1)] }],
        index: vec![entry(1, 1), entry(2, 1)],
        fees: vec![FeeRecord { token: s("a"), fee: Fee::new(1, 0) }],
    };
    assert!(Market::from_parts(good()).is_some());
    assert!(Market::from_parts(MarketParts { version: 0, books: vec![], index: vec![], fees: vec![] }).is_some());

    // a pair that stands twice
    let mut parts = good();
    parts.books.push(BookPart { key: compose_key(&s(XABR), &s(ABR)), orders: vec![entry(5, 1)] });
    assert!(Market::from_parts(parts).is_none());

    // an order in the book of another pair
    let mut parts = good();
    parts.books[0].key = s("a#b");
    parts.index.clear();
    assert!(Market::from_parts(parts).is_none());

    // an order in the index that no book holds
    let mut parts = good();
    parts.index.push(entry(3, 1));
    assert!(Market::from_parts(parts).is_none());

    // an order in the index that its book holds otherwise
    let mut parts = good();
    parts.index[0].order.maker = s("other.near");
    assert!(Market::from_parts(parts).is_none());

    // the index may lack what a book holds
    let mut parts = good();
    parts.index.pop();
    assert!(Market::from_parts(parts).is_some());

    let mut parts = good();
    parts.books.push(BookPart { key: s("c#d"), orders: vec![] });
    assert!(Market::from_parts(parts).is_none());

    let mut parts = good();
    parts.books[0].orders.swap(0, 1);
    assert!(Market::from_parts(parts).is_none());

    let mut parts = good();
    parts.index.swap(0, 1);
    assert!(Market::from_parts(parts).is_none());

    let mut parts = good();
    parts.fees.push(FeeRecord { token: s("a"), fee: Fee::new(2, 0) });
    assert!(Market::from_parts(parts).is_none());

    let mut parts = good();
    parts.fees[0].fee.percent = 0;
    assert!(Market::from_parts(parts).is_none());

    let mut parts = good();
    parts.fees[0].fee.percent = 10001;
    assert!(Market::from_parts(parts).is_none());
}
