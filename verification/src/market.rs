//! The market: the books of all pairs, the index from id to order, and the
//! fee ledger, with the operations that owners of orders, takers and the
//! administrator use.

use vstd::prelude::*;
use vstd::string::*;
use crate::book::{
    ascending, copy_entries, entry_views, holds, lemma_holds, lemma_lower_bound, lookup, top, OrderBook,
};
use crate::constants::{BOOK_VIEW_LIMIT, DEFAULT_FEE_PERCENT, HUNDRED_PERCENT};
use crate::errors::MarketError;
use crate::fees::{net_amount, net_of_fee, Fee};
use crate::helpers::{assert_owner, compose_key, ft_transfer, CallContext};
use crate::keyed::{as_map, distinct_keys, has_key, lemma_push, lemma_remove, lemma_row, lemma_update, row_of};
use crate::order::{amounts_valid, order_from, order_id_of, NewOrderAction, Order, OrderView, OrderViewData};
use crate::order_id::OrderId;
use crate::settlement::{Transfer, TransferData};
use crate::state::{lemma_with_order, lemma_without_order, pair_key, pair_of, MarketState};

verus! {

/// The book of one pair, under the pair's key.
struct PairBook {
    key: String,
    book: OrderBook,
}

/// The fee record of one asset, under the asset's name.
#[derive(Debug, PartialEq, Eq)]
pub struct FeeRecord {
    pub token: String,
    pub fee: Fee,
}

/// The book of one pair, laid open: the pair's key and its orders.
#[derive(Debug, PartialEq, Eq)]
pub struct BookPart {
    pub key: String,
    pub orders: Vec<OrderView>,
}

/// A market laid open, as it can be kept between calls and taken up again.
#[derive(Debug, PartialEq, Eq)]
pub struct MarketParts {
    pub version: u8,
    pub books: Vec<BookPart>,
    pub index: Vec<OrderView>,
    pub fees: Vec<FeeRecord>,
}

/// The aggregate that every operation works on.
pub struct Market {
    version: u8,
    orders: Vec<PairBook>,
    order_id_to_order: OrderBook,
    fees: Vec<FeeRecord>,
}

spec fn book_rows(pairs: Seq<PairBook>) -> Seq<(Seq<char>, Seq<OrderViewData>)> {
    Seq::new(pairs.len(), |i: int| (pairs[i].key@, pairs[i].book@))
}

/// The fee records as rows under the assets' names.
pub open spec fn fee_rows(fees: Seq<FeeRecord>) -> Seq<(Seq<char>, Fee)> {
    Seq::new(fees.len(), |i: int| (fees[i].token@, fees[i].fee))
}

/// The books laid open as rows under the pairs' keys.
pub open spec fn part_rows(books: Seq<BookPart>) -> Seq<(Seq<char>, Seq<OrderViewData>)> {
    Seq::new(books.len(), |i: int| (books[i].key@, entry_views(books[i].orders@)))
}

impl MarketParts {
    /// The parts are those of a market in order: no pair and no asset stands
    /// twice, every book is ascending and not empty, the index is ascending,
    /// every fee rate is one that may be set, and the books and the index are
    /// linked.
    pub open spec fn wf(&self) -> bool {
        &&& distinct_keys(part_rows(self.books@))
        &&& forall|i: int|
            0 <= i < self.books@.len() ==> ascending(entry_views((#[trigger] self.books@[i]).orders@))
                && self.books@[i].orders@.len() > 0
        &&& ascending(entry_views(self.index@))
        &&& distinct_keys(fee_rows(self.fees@))
        &&& forall|i: int| 0 <= i < self.fees@.len() ==> (#[trigger] self.fees@[i]).fee.valid()
        &&& self@.linked()
    }
}

impl View for MarketParts {
    type V = MarketState;

    open spec fn view(&self) -> MarketState {
        MarketState {
            version: self.version,
            books: as_map(part_rows(self.books@)),
            index: entry_views(self.index@),
            fees: as_map(fee_rows(self.fees@)),
        }
    }
}

/// Where the book of `key` stands among `pairs`.
fn find_book(pairs: &Vec<PairBook>, key: &String) -> (found: Option<usize>)
    ensures
        match found {
            Some(i) => i < pairs@.len() && pairs@[i as int].key@ == key@,
            None => !has_key(book_rows(pairs@), key@),
        },
{
    let mut i: usize = 0;
    while i < pairs.len()
        invariant
            i <= pairs@.len(),
            forall|j: int| 0 <= j < i ==> (#[trigger] book_rows(pairs@)[j]).0 != key@,
        decreases pairs@.len() - i,
    {
        if pairs[i].key == *key {
            return Some(i);
        }
        i += 1;
    }
    None
}

impl View for Market {
    type V = MarketState;

    closed spec fn view(&self) -> MarketState {
        MarketState {
            version: self.version,
            books: as_map(book_rows(self.orders@)),
            index: self.order_id_to_order@,
            fees: as_map(fee_rows(self.fees@)),
        }
    }
}

impl Market {
    /// The books and the index are in order and linked, no pair stands twice,
    /// no book is empty, every fee rate is one that may be set.
    pub closed spec fn wf(&self) -> bool {
        &&& distinct_keys(book_rows(self.orders@))
        &&& forall|i: int|
            0 <= i < self.orders@.len() ==> (#[trigger] self.orders@[i]).book.wf() && self.orders@[i].book@.len() > 0
        &&& self.order_id_to_order.wf()
        &&& distinct_keys(fee_rows(self.fees@))
        &&& forall|i: int| 0 <= i < self.fees@.len() ==> (#[trigger] self.fees@[i]).fee.valid()
        &&& self@.linked()
    }

    /// A market in order has a state in order.
    pub proof fn lemma_wf(&self)
        requires
            self.wf(),
        ensures
            self@.wf(),
    {
    }

    /// A market without orders and fee records.
    pub fn new(version: u8) -> (market: Self)
        ensures
            market.wf(),
            market@ == MarketState::empty(version),
    {
        let market = Market {
            version,
            orders: Vec::new(),
            order_id_to_order: OrderBook::new(),
            fees: Vec::new(),
        };
        assert(market@.books =~= Map::<Seq<char>, Seq<OrderViewData>>::empty());
        assert(market@.fees =~= Map::<Seq<char>, Fee>::empty());
        market
    }

    /// The market laid open, to be kept until the next call.
    pub fn to_parts(&self) -> (parts: MarketParts)
        requires
            self.wf(),
        ensures
            parts.wf(),
            parts@ == self@,
    {
        let mut books: Vec<BookPart> = Vec::new();
        let mut i: usize = 0;
        while i < self.orders.len()
            invariant
                i <= self.orders@.len(),
                books@.len() == i,
                forall|j: int|
                    0 <= j < i ==> (#[trigger] books@[j]).key@ == self.orders@[j].key@ && entry_views(
                        books@[j].orders@,
                    ) == self.orders@[j].book@,
            decreases self.orders@.len() - i,
        {
            books.push(BookPart { key: self.orders[i].key.clone(), orders: self.orders[i].book.entries() });
            i += 1;
        }
        let mut fees: Vec<FeeRecord> = Vec::new();
        let mut k: usize = 0;
        while k < self.fees.len()
            invariant
                k <= self.fees@.len(),
                fees@.len() == k,
                forall|j: int|
                    0 <= j < k ==> (#[trigger] fees@[j]).token@ == self.fees@[j].token@ && fees@[j].fee
                        == self.fees@[j].fee,
            decreases self.fees@.len() - k,
        {
            fees.push(FeeRecord { token: self.fees[k].token.clone(), fee: self.fees[k].fee });
            k += 1;
        }
        let parts = MarketParts { version: self.version, books, index: self.order_id_to_order.entries(), fees };
        proof {
            assert(part_rows(parts.books@) =~= book_rows(self.orders@));
            assert(fee_rows(parts.fees@) =~= fee_rows(self.fees@));
        }
        parts
    }

    /// The market that `parts` are the parts of; `None` where they are not
    /// those of a market in order.
    pub fn from_parts(parts: MarketParts) -> (market: Option<Self>)
        ensures
            market is Some <==> parts.wf(),
            market is Some ==> market->Some_0.wf() && market->Some_0@ == parts@,
    {
        let ghost state = parts@;
        let ghost rows = part_rows(parts.books@);
        let mut orders: Vec<PairBook> = Vec::new();
        let mut i: usize = 0;
        while i < parts.books.len()
            invariant
                i <= parts.books@.len(),
                orders@.len() == i,
                rows == part_rows(parts.books@),
                state == parts@,
                forall|j: int|
                    0 <= j < i ==> (#[trigger] orders@[j]).key@ == parts.books@[j].key@ && orders@[j].book@
                        == entry_views(parts.books@[j].orders@) && orders@[j].book.wf() && orders@[j].book@.len()
                        > 0,
                forall|a: int, b: int| 0 <= a < b < i ==> (#[trigger] rows[a]).0 != (#[trigger] rows[b]).0,
                forall|a: int, b: int|
                    0 <= a < i && 0 <= b < rows[a].1.len() ==> pair_of((#[trigger] rows[a].1[b]).order)
                        == rows[a].0,
            decreases parts.books@.len() - i,
        {
            let part = &parts.books[i];
            // no pair twice
            let mut j: usize = 0;
            while j < i
                invariant
                    j <= i < parts.books@.len(),
                    rows == part_rows(parts.books@),
                    *part == parts.books@[i as int],
                    forall|a: int| 0 <= a < j ==> (#[trigger] rows[a]).0 != rows[i as int].0,
                decreases i - j,
            {
                if parts.books[j].key == part.key {
                    assert(rows[j as int].0 == rows[i as int].0);
                    return None;
                }
                j += 1;
            }
            // no book empty or out of order
            if part.orders.len() == 0 {
                return None;
            }
            let book = match OrderBook::from_entries(copy_entries(&part.orders)) {
                Some(book) => book,
                None => {
                    return None;
                },
            };
            // no order in the book of another pair
            let mut b: usize = 0;
            while b < part.orders.len()
                invariant
                    b <= part.orders@.len(),
                    i < parts.books@.len(),
                    rows == part_rows(parts.books@),
                    state == parts@,
                    *part == parts.books@[i as int],
                    ascending(rows[i as int].1),
                    forall|x: int| 0 <= x < b ==> pair_of((#[trigger] rows[i as int].1[x]).order) == rows[i as int].0,
                decreases part.orders@.len() - b,
            {
                let entry = &part.orders[b];
                let key = compose_key(&entry.order.sell_token, &entry.order.buy_token);
                if !(key == part.key) {
                    proof {
                        if parts.wf() {
                            let book = rows[i as int].1;
                            lemma_holds(book, entry.order_id);
                            assert(book[b as int].order_id == entry.order_id);
                            assert(lookup(state.books[rows[i as int].0], entry.order_id) == Some(entry@.order));
                        }
                    }
                    return None;
                }
                b += 1;
            }
            orders.push(PairBook { key: part.key.clone(), book });
            i += 1;
        }
        let ghost tokens = fee_rows(parts.fees@);
        let mut k: usize = 0;
        while k < parts.fees.len()
            invariant
                k <= parts.fees@.len(),
                tokens == fee_rows(parts.fees@),
                forall|a: int| 0 <= a < k ==> (#[trigger] parts.fees@[a]).fee.valid(),
                forall|a: int, b: int| 0 <= a < b < k ==> (#[trigger] tokens[a]).0 != (#[trigger] tokens[b]).0,
            decreases parts.fees@.len() - k,
        {
            // no rate out of range, no asset twice
            let percent: u16 = parts.fees[k].fee.percent;
            if percent < 1 || percent > HUNDRED_PERCENT {
                return None;
            }
            let mut j: usize = 0;
            while j < k
                invariant
                    j <= k < parts.fees@.len(),
                    tokens == fee_rows(parts.fees@),
                    forall|a: int| 0 <= a < j ==> (#[trigger] tokens[a]).0 != tokens[k as int].0,
                decreases k - j,
            {
                if parts.fees[j].token == parts.fees[k].token {
                    assert(tokens[j as int].0 == tokens[k as int].0);
                    return None;
                }
                j += 1;
            }
            k += 1;
        }
        let version: u8 = parts.version;
        let fees = parts.fees;
        let index = match OrderBook::from_entries(parts.index) {
            Some(index) => index,
            None => {
                return None;
            },
        };
        proof {
            assert forall|j: int| 0 <= j < parts.books@.len() implies ascending(
                entry_views((#[trigger] parts.books@[j]).orders@),
            ) && parts.books@[j].orders@.len() > 0 by {
                assert(orders@[j].book.wf());
            }
        }
        let mut x: usize = 0;
        while x < index.len()
            invariant
                x <= index@.len(),
                index.wf(),
                state == parts@,
                index@ == state.index,
                state.books == as_map(rows),
                book_rows(orders@) == rows,
                distinct_keys(rows),
                forall|j: int| 0 <= j < orders@.len() ==> (#[trigger] orders@[j]).book.wf(),
                forall|y: int|
                    0 <= y < x ==> lookup(
                        state.book(pair_of((#[trigger] state.index[y]).order)),
                        state.index[y].order_id,
                    ) == Some(state.index[y].order),
            decreases index@.len() - x,
        {
            // no order in the index that does not rest in the book of its pair
            let entry = index.entry(x);
            let key = compose_key(&entry.order.sell_token, &entry.order.buy_token);
            let rests: bool = match find_book(&orders, &key) {
                Some(j) => {
                    proof {
                        lemma_row(rows, j as int);
                    }
                    match orders[j].book.get(&entry.order_id) {
                        Some(order) => order.same_as(&entry.order),
                        None => false,
                    }
                },
                None => false,
            };
            proof {
                lemma_holds(state.index, entry.order_id);
                assert(lookup(state.index, entry.order_id) == Some(entry@.order));
            }
            if !rests {
                return None;
            }
            x += 1;
        }
        let market = Market { version, orders, order_id_to_order: index, fees };
        proof {
            assert forall|key: Seq<char>, id: OrderId|
                #![trigger lookup(state.books[key], id)]
                state.books.contains_key(key) && lookup(state.books[key], id) is Some implies pair_of(
                    lookup(state.books[key], id)->Some_0,
                ) == key by {
                let r = row_of(rows, key);
                lemma_lower_bound(rows[r].1, id);
            }
            assert forall|id: OrderId|
                #![trigger lookup(state.index, id)]
                lookup(state.index, id) is Some implies lookup(
                    state.book(pair_of(lookup(state.index, id)->Some_0)),
                    id,
                ) == lookup(state.index, id) by {
                lemma_lower_bound(state.index, id);
            }
        }
        Some(market)
    }

    /// The version the market was made with.
    pub fn version(&self) -> (version: u8)
        ensures
            version == self@.version,
    {
        self.version
    }

    /// Where the book of `key` stands among the pairs.
    fn find_pair(&self, key: &String) -> (found: Option<usize>)
        ensures
            match found {
                Some(i) => i < self.orders@.len() && self.orders@[i as int].key@ == key@,
                None => !has_key(book_rows(self.orders@), key@),
            },
    {
        find_book(&self.orders, key)
    }

    /// Where the record of `token` stands among the fee records.
    fn find_fee(&self, token: &String) -> (found: Option<usize>)
        ensures
            match found {
                Some(i) => i < self.fees@.len() && self.fees@[i as int].token@ == token@,
                None => !has_key(fee_rows(self.fees@), token@),
            },
    {
        let mut i: usize = 0;
        while i < self.fees.len()
            invariant
                i <= self.fees@.len(),
                forall|j: int| 0 <= j < i ==> (#[trigger] fee_rows(self.fees@)[j]).0 != token@,
            decreases self.fees@.len() - i,
        {
            if self.fees[i].token == *token {
                return Some(i);
            }
            i += 1;
        }
        None
    }

    /// Keeps `fee` as the record of `token`.
    fn set_fee_record(&mut self, token: &String, fee: Fee)
        requires
            old(self).wf(),
            fee.valid(),
        ensures
            final(self).wf(),
            final(self)@ == (MarketState { fees: old(self)@.fees.insert(token@, fee), ..old(self)@ }),
    {
        let ghost before = fee_rows(self.fees@);
        match self.find_fee(token) {
            Some(i) => {
                let record = &mut self.fees[i];
                record.fee = fee;
                proof {
                    assert(fee_rows(self.fees@) =~= before.update(i as int, (before[i as int].0, fee)));
                    lemma_update(before, i as int, fee);
                }
            },
            None => {
                let record = FeeRecord { token: token.clone(), fee };
                self.fees.push(record);
                proof {
                    assert(fee_rows(self.fees@) =~= before.push((token@, fee)));
                    lemma_push(before, token@, fee);
                }
            },
        }
    }

    /// Places `order` under `order_id`: into the book of its pair and into the
    /// index. Refused when the pair's book already holds that id.
    pub fn insert_order(&mut self, order: Order, order_id: OrderId) -> (placed: Result<(), MarketError>)
        requires
            old(self).wf(),
        ensures
            final(self).wf(),
            match placed {
                Ok(()) => old(self)@.place(order@, order_id) == Ok::<MarketState, MarketError>(final(self)@),
                Err(e) => old(self)@.place(order@, order_id) == Err::<MarketState, MarketError>(e)
                    && final(self)@ == old(self)@,
            },
    {
        let key = compose_key(&order.sell_token, &order.buy_token);
        let ghost entry = OrderViewData { order: order@, order_id };
        let ghost before = book_rows(self.orders@);
        match self.find_pair(&key) {
            Some(i) => {
                proof {
                    lemma_row(before, i as int);
                }
                if self.orders[i].book.contains_key(&order_id) {
                    return Err(MarketError::DuplicateOrder);
                }
                let copy = order.clone();
                let pair = &mut self.orders[i];
                pair.book.insert(order_id, copy);
                proof {
                    assert(book_rows(self.orders@) =~= before.update(
                        i as int,
                        (before[i as int].0, self.orders@[i as int].book@),
                    ));
                    lemma_update(before, i as int, self.orders@[i as int].book@);
                }
            },
            None => {
                let mut book = OrderBook::new();
                book.insert(order_id, order.clone());
                let pair = PairBook { key, book };
                proof {
                    lemma_push(before, pair.key@, pair.book@);
                }
                self.orders.push(pair);
                proof {
                    assert(book_rows(self.orders@) =~= before.push((pair.key@, pair.book@)));
                }
            },
        }
        self.order_id_to_order.insert(order_id, order);
        proof {
            lemma_with_order(old(self)@, entry);
        }
        Ok(())
    }

    /// Places the order that `sender` asks for with `action`. Refused when the
    /// same order already stands in its pair's book.
    pub fn add_order(&mut self, action: NewOrderAction, sender: String) -> (placed: Result<(), MarketError>)
        requires
            old(self).wf(),
            amounts_valid(action.sell_amount, action.buy_amount),
        ensures
            final(self).wf(),
            ({
                let order = order_from(action@, sender@);
                match placed {
                    Ok(()) => old(self)@.place(order, order_id_of(order)) == Ok::<MarketState, MarketError>(
                        final(self)@,
                    ),
                    Err(e) => old(self)@.place(order, order_id_of(order)) == Err::<MarketState, MarketError>(e)
                        && final(self)@ == old(self)@,
                }
            }),
    {
        let order = Order::from_action(action, sender);
        let order_id = order.get_id();
        self.insert_order(order, order_id)
    }

    /// The order that the index holds under `order_id`.
    pub fn get_order(&self, order_id: OrderId) -> (found: Option<Order>)
        requires
            self.wf(),
        ensures
            match found {
                Some(order) => lookup(self@.index, order_id) == Some(order@),
                None => lookup(self@.index, order_id) is None,
            },
    {
        self.order_id_to_order.get(&order_id)
    }

    /// The first orders of the pair's book, lowest id first and
    /// `BOOK_VIEW_LIMIT` at most; `None` where the pair has no orders.
    pub fn get_orders(&self, sell_token: String, buy_token: String) -> (shown: Option<Vec<OrderView>>)
        requires
            self.wf(),
        ensures
            match shown {
                Some(orders) => self@.books.contains_key(pair_key(sell_token@, buy_token@)) && entry_views(
                    orders@,
                ) == top(self@.books[pair_key(sell_token@, buy_token@)], BOOK_VIEW_LIMIT as int),
                None => !self@.books.contains_key(pair_key(sell_token@, buy_token@)),
            },
    {
        let key = compose_key(&sell_token, &buy_token);
        match self.find_pair(&key) {
            Some(i) => {
                proof {
                    lemma_row(book_rows(self.orders@), i as int);
                }
                Some(self.orders[i].book.first(BOOK_VIEW_LIMIT))
            },
            None => None,
        }
    }

    /// The keys of the pairs that have orders, each once.
    pub fn get_pairs(&self) -> (keys: Vec<String>)
        requires
            self.wf(),
        ensures
            forall|i: int| 0 <= i < keys@.len() ==> self@.books.contains_key(#[trigger] keys@[i]@),
            forall|key: Seq<char>| #[trigger]
                self@.books.contains_key(key) ==> exists|i: int| 0 <= i < keys@.len() && #[trigger] keys@[i]@ == key,
            forall|i: int, j: int| 0 <= i < j < keys@.len() ==> #[trigger] keys@[i]@ != #[trigger] keys@[j]@,
    {
        let mut keys: Vec<String> = Vec::new();
        let mut i: usize = 0;
        while i < self.orders.len()
            invariant
                i <= self.orders@.len(),
                keys@.len() == i,
                forall|j: int| 0 <= j < i ==> (#[trigger] keys@[j])@ == self.orders@[j].key@,
            decreases self.orders@.len() - i,
        {
            keys.push(self.orders[i].key.clone());
            i += 1;
        }
        proof {
            let rows = book_rows(self.orders@);
            assert forall|j: int| 0 <= j < keys@.len() implies self@.books.contains_key(
                #[trigger] keys@[j]@,
            ) by {
                lemma_row(rows, j);
            }
            assert forall|key: Seq<char>| #[trigger] self@.books.contains_key(key) implies exists|j: int|
                0 <= j < keys@.len() && #[trigger] keys@[j]@ == key by {
                let j = row_of(rows, key);
                assert(keys@[j]@ == key);
            }
            assert forall|a: int, b: int| 0 <= a < b < keys@.len() implies #[trigger] keys@[a]@
                != #[trigger] keys@[b]@ by {
                assert(rows[a].0 != rows[b].0);
            }
        }
        keys
    }

    /// Takes `order_id` out of the book that stands at `at` and out of the
    /// index; a book left empty goes with it.
    fn remove_order_from_tree(&mut self, at: usize, order_id: &OrderId)
        requires
            old(self).wf(),
            at < old(self).orders@.len(),
        ensures
            final(self).wf(),
            final(self)@ == old(self)@.without_order(old(self).orders@[at as int].key@, *order_id),
    {
        let ghost pairs = self.orders@;
        let ghost before = book_rows(pairs);
        let ghost key = pairs[at as int].key@;
        let pair = &mut self.orders[at];
        pair.book.remove(order_id);
        let ghost mid_pairs = self.orders@;
        let ghost mid = book_rows(mid_pairs);
        proof {
            assert(mid =~= before.update(at as int, (before[at as int].0, mid_pairs[at as int].book@)));
            lemma_update(before, at as int, mid_pairs[at as int].book@);
        }
        if self.orders[at].book.is_empty() {
            self.orders.remove(at);
            proof {
                assert(book_rows(self.orders@) =~= mid.remove(at as int));
                lemma_remove(mid, at as int);
                assert(as_map(mid.remove(at as int)) =~= as_map(before).remove(key));
            }
        }
        self.order_id_to_order.remove(order_id);
        proof {
            lemma_without_order(old(self)@, key, *order_id);
        }
    }

    /// Takes the order under `order_id` out of the pair's book and out of the
    /// index. Refused when the pair has no book.
    pub fn internal_remove_order(&mut self, sell_token: &String, buy_token: &String, order_id: &OrderId) -> (gone:
        Result<(), MarketError>)
        requires
            old(self).wf(),
        ensures
            final(self).wf(),
            gone is Ok <==> old(self)@.books.contains_key(pair_key(sell_token@, buy_token@)),
            gone is Ok ==> final(self)@ == old(self)@.without_order(pair_key(sell_token@, buy_token@), *order_id),
            gone is Err ==> gone == Err::<(), MarketError>(MarketError::Internal) && final(self)@ == old(self)@,
    {
        let key = compose_key(sell_token, buy_token);
        match self.find_pair(&key) {
            Some(at) => {
                proof {
                    lemma_row(book_rows(self.orders@), at as int);
                }
                self.remove_order_from_tree(at, order_id);
                Ok(())
            },
            None => Err(MarketError::Internal),
        }
    }

    /// Cancels the order under `order_id` in the pair's book for its maker,
    /// who must be the caller, and returns the transfer that gives back what
    /// the order sells.
    pub fn remove_order(
        &mut self,
        context: &CallContext,
        sell_token: String,
        buy_token: String,
        order_id: OrderId,
    ) -> (cancelled: Result<Transfer, MarketError>)
        requires
            old(self).wf(),
        ensures
            final(self).wf(),
            match cancelled {
                Ok(refund) => old(self)@.cancel(context.predecessor_account_id@, sell_token@, buy_token@, order_id)
                    == Ok::<(MarketState, TransferData), MarketError>((final(self)@, refund@)),
                Err(e) => old(self)@.cancel(context.predecessor_account_id@, sell_token@, buy_token@, order_id)
                    == Err::<(MarketState, TransferData), MarketError>(e) && final(self)@ == old(self)@,
            },
    {
        let key = compose_key(&sell_token, &buy_token);
        let at: usize = match self.find_pair(&key) {
            Some(at) => at,
            None => {
                return Err(MarketError::OrderNotFound);
            },
        };
        proof {
            lemma_row(book_rows(self.orders@), at as int);
        }
        let order = match self.orders[at].book.get(&order_id) {
            Some(order) => order,
            None => {
                return Err(MarketError::OrderNotFound);
            },
        };
        if context.predecessor_account_id != order.maker {
            return Err(MarketError::PermissionDenied);
        }
        self.remove_order_from_tree(at, &order_id);
        proof {
            reveal_strlit("");
            assert(""@ =~= Seq::<char>::empty());
        }
        Ok(ft_transfer(&order.maker, order.sell_amount, "", &order.sell_token))
    }

    /// The fee record of `token`; the initial one where none is kept yet.
    pub fn fee_info(&self, token: &String) -> (fee: Fee)
        requires
            self.wf(),
        ensures
            fee == self@.fee(token@),
            fee.valid(),
    {
        match self.find_fee(token) {
            Some(i) => {
                proof {
                    lemma_row(fee_rows(self.fees@), i as int);
                }
                self.fees[i].fee
            },
            None => Fee::new(DEFAULT_FEE_PERCENT, 0),
        }
    }

    /// The fee record of `sell_token`, which is kept from now on.
    pub fn get_or_create_fee_info(&mut self, sell_token: &String) -> (fee: Fee)
        requires
            old(self).wf(),
        ensures
            final(self).wf(),
            fee == old(self)@.fee(sell_token@),
            final(self)@ == old(self)@.with_fee_record(sell_token@),
    {
        let fee = self.fee_info(sell_token);
        self.set_fee_record(sell_token, fee);
        fee
    }

    /// What is left of `amount` of `sell_token` after the fee at the asset's
    /// rate; the asset's fee record is kept from now on. Nothing is booked as
    /// earned here.
    pub fn take_fee(&mut self, amount: u128, sell_token: &String) -> (net: u128)
        requires
            old(self).wf(),
        ensures
            final(self).wf(),
            net == net_of_fee(amount as nat, old(self)@.fee(sell_token@).percent as nat),
            net <= amount,
            final(self)@ == old(self)@.with_fee_record(sell_token@),
    {
        let fee = self.get_or_create_fee_info(sell_token);
        net_amount(amount, fee.percent)
    }

    /// Sets the rate of `token`; what the asset has earned stays.
    pub fn internal_set_fee(&mut self, token: String, percent: u16)
        requires
            old(self).wf(),
            1 <= percent <= HUNDRED_PERCENT,
        ensures
            final(self).wf(),
            final(self)@ == old(self)@.with_rate(token@, percent),
    {
        let earned: u128 = match self.find_fee(&token) {
            Some(i) => {
                proof {
                    lemma_row(fee_rows(self.fees@), i as int);
                }
                self.fees[i].fee.earned
            },
            None => 0,
        };
        self.set_fee_record(&token, Fee::new(percent, earned));
    }

    /// Sets the rate of `token` for the owner, who must be the caller.
    pub fn set_fee(&mut self, context: &CallContext, token: String, percent: u16) -> (set: Result<(), MarketError>)
        requires
            old(self).wf(),
            1 <= percent <= HUNDRED_PERCENT,
        ensures
            final(self).wf(),
            ({
                let by_owner = context.current_account_id@ == context.predecessor_account_id@;
                match set {
                    Ok(()) => old(self)@.set_rate(by_owner, token@, percent) == Ok::<MarketState, MarketError>(
                        final(self)@,
                    ),
                    Err(e) => old(self)@.set_rate(by_owner, token@, percent) == Err::<MarketState, MarketError>(e)
                        && final(self)@ == old(self)@,
                }
            }),
    {
        match assert_owner(context) {
            Ok(()) => {
                self.internal_set_fee(token, percent);
                Ok(())
            },
            Err(e) => Err(e),
        }
    }

    /// Books `fee` as earned in `sell_token`.
    pub fn on_success_deposit(&mut self, fee: u128, sell_token: &String)
        requires
            old(self).wf(),
            old(self)@.fee(sell_token@).earned + fee <= u128::MAX,
        ensures
            final(self).wf(),
            final(self)@ == old(self)@.credited(sell_token@, fee),
    {
        let fee_info = self.fee_info(sell_token);
        self.set_fee_record(sell_token, Fee::new(fee_info.percent, fee_info.earned + fee));
    }

    /// Takes `amount` off what `token` has earned, down to zero at most.
    pub fn internal_on_tokens_sent_to_ext_account(&mut self, token: &String, amount: u128)
        requires
            old(self).wf(),
        ensures
            final(self).wf(),
            final(self)@ == old(self)@.debited(token@, amount),
    {
        match self.find_fee(token) {
            Some(i) => {
                proof {
                    lemma_row(fee_rows(self.fees@), i as int);
                }
                let fee = self.fees[i].fee;
                let left: u128 = if fee.earned >= amount {
                    fee.earned - amount
                } else {
                    0
                };
                self.set_fee_record(token, Fee::new(fee.percent, left));
            },
            None => {},
        }
    }
}

} // verus!
